//! What a template says: text in which `{name}` stands for the value of the
//! variable `name`.

use vstd::prelude::*;
use crate::text::{has_infix, occurs_at};

verus! {

/// The value of the variable `name`: that of the last entry of that name.
pub open spec fn value_of(vars: Seq<(Seq<char>, Seq<char>)>, name: Seq<char>) -> Option<
    Seq<char>,
>
    decreases vars.len(),
{
    if vars.len() == 0 {
        None
    } else if vars.last().0 == name {
        Some(vars.last().1)
    } else {
        value_of(vars.drop_last(), name)
    }
}

/// Whether `template`, read from a point outside a placeholder or `inside`
/// one, holds braces only around the names of placeholders: each `{` is
/// followed by a name of at least one character, without brace or colon, and
/// a `}`.
pub open spec fn is_simple_from(template: Seq<char>, inside: bool) -> bool
    decreases template.len(),
{
    if template.len() == 0 {
        !inside
    } else {
        let rest = template.drop_first();
        if inside {
            if template[0] == '}' {
                is_simple_from(rest, false)
            } else {
                template[0] != '{' && template[0] != ':' && is_simple_from(rest, true)
            }
        } else {
            if template[0] == '{' {
                rest.len() > 0 && rest[0] != '}' && is_simple_from(rest, true)
            } else {
                template[0] != '}' && is_simple_from(rest, false)
            }
        }
    }
}

/// Whether `template` holds braces only around the names of placeholders.
pub open spec fn is_simple(template: Seq<char>) -> bool {
    is_simple_from(template, false)
}

/// What `template` becomes, read from a point outside a placeholder, or from
/// inside one of which `name` is what has been read: the value of each
/// placeholder's variable in place of the placeholder, every other character
/// as it stands. `None` where a placeholder names no variable.
pub open spec fn expansion_from(
    template: Seq<char>,
    vars: Seq<(Seq<char>, Seq<char>)>,
    name: Option<Seq<char>>,
) -> Option<Seq<char>>
    decreases template.len(),
{
    if template.len() == 0 {
        match name {
            None => Some(Seq::<char>::empty()),
            Some(_) => None,
        }
    } else {
        let rest = template.drop_first();
        match name {
            Some(read) => if template[0] == '}' {
                match (value_of(vars, read), expansion_from(rest, vars, None)) {
                    (Some(value), Some(tail)) => Some(value + tail),
                    _ => None,
                }
            } else {
                expansion_from(rest, vars, Some(read.push(template[0])))
            },
            None => if template[0] == '{' {
                expansion_from(rest, vars, Some(Seq::<char>::empty()))
            } else {
                match expansion_from(rest, vars, None) {
                    Some(tail) => Some(seq![template[0]] + tail),
                    None => None,
                }
            },
        }
    }
}

/// What a simple template becomes with the variables `vars`: see
/// [`expansion_from`].
pub open spec fn expansion(template: Seq<char>, vars: Seq<(Seq<char>, Seq<char>)>) -> Option<
    Seq<char>,
> {
    expansion_from(template, vars, None)
}

/// Whether a `}` stands between `from` and `to`, and not right behind `from`.
pub open spec fn closes_between(template: Seq<char>, from: int, to: int) -> bool {
    exists|j: int| from + 1 < j < to && #[trigger] template[j] == '}'
}

/// Whether no placeholder of `template` holds a layout: behind every `{`, a
/// `}` closes the placeholder before the next colon. A colon in a placeholder
/// starts a layout, by which the value is padded to a width that the template
/// is free to name. A `}` right behind the `{` closes nothing that could be
/// filled in.
pub open spec fn has_bare_placeholders(template: Seq<char>) -> bool {
    forall|i: int, k: int|
        #![trigger template[i], template[k]]
        0 <= i < k < template.len() && template[i] == '{' && template[k] == ':'
            ==> closes_between(template, i, k)
}

/// In a simple template read from `inside` a placeholder, a `}` stands before
/// every colon, and behind every `{` a `}` closes the placeholder before the
/// next colon.
pub proof fn lemma_simple_closes_before_colon(template: Seq<char>, inside: bool, k: int)
    requires
        is_simple_from(template, inside),
        0 <= k < template.len(),
        template[k] == ':',
    ensures
        inside ==> exists|j: int| 0 <= j < k && #[trigger] template[j] == '}',
        forall|i: int|
            0 <= i < k && #[trigger] template[i] == '{' ==> closes_between(template, i, k),
    decreases template.len(),
{
    let rest = template.drop_first();
    if k > 0 {
        let next = if inside {
            template[0] != '}'
        } else {
            template[0] == '{'
        };
        lemma_simple_closes_before_colon(rest, next, k - 1);
        if inside {
            if template[0] == '}' {
                assert(template[0] == '}');
            } else {
                let j = choose|j: int| 0 <= j < k - 1 && #[trigger] rest[j] == '}';
                assert(template[j + 1] == '}');
            }
        }
        assert forall|i: int| 0 <= i < k && #[trigger] template[i] == '{' implies closes_between(
            template,
            i,
            k,
        ) by {
            if i == 0 {
                let j = choose|j: int| 0 <= j < k - 1 && #[trigger] rest[j] == '}';
                assert(template[j + 1] == '}');
            } else {
                assert(rest[i - 1] == '{');
                let j = choose|j: int| i - 1 + 1 < j < k - 1 && #[trigger] rest[j] == '}';
                assert(template[j + 1] == '}');
            }
        }
    }
}

/// A simple template has bare placeholders.
pub proof fn lemma_simple_is_bare(template: Seq<char>)
    requires
        is_simple(template),
    ensures
        has_bare_placeholders(template),
{
    assert forall|i: int, k: int|
        #![trigger template[i], template[k]]
        0 <= i < k < template.len() && template[i] == '{' && template[k]
            == ':' implies closes_between(template, i, k) by {
        lemma_simple_closes_before_colon(template, false, k);
    }
}

/// Whether `text` holds no brace.
pub open spec fn brace_free(text: Seq<char>) -> bool {
    forall|i: int| 0 <= i < text.len() ==> text[i] != '{' && text[i] != '}'
}

/// Whether `name` can stand in a placeholder: it has a character, and holds
/// neither brace nor colon.
pub open spec fn is_name(name: Seq<char>) -> bool {
    &&& name.len() > 0
    &&& forall|i: int|
        0 <= i < name.len() ==> name[i] != '{' && name[i] != '}' && name[i] != ':'
}

/// The placeholder of the variable `name`.
pub open spec fn placeholder(name: Seq<char>) -> Seq<char> {
    seq!['{'] + name + seq!['}']
}

/// What becomes of two results put end to end.
pub open spec fn joined(head: Option<Seq<char>>, tail: Option<Seq<char>>) -> Option<Seq<char>> {
    match (head, tail) {
        (Some(first), Some(second)) => Some(first + second),
        _ => None,
    }
}

/// A text that holds `needle` holds it still behind any other text.
pub proof fn lemma_infix_behind(head: Seq<char>, text: Seq<char>, needle: Seq<char>)
    requires
        has_infix(text, needle),
    ensures
        has_infix(head + text, needle),
{
    let at = choose|at: int| occurs_at(text, needle, at);
    let whole = head + text;
    assert(whole.subrange(head.len() + at, head.len() + at + needle.len()) =~= text.subrange(
        at,
        at + needle.len(),
    ));
    assert(occurs_at(whole, needle, head.len() + at));
}

/// Read from inside a placeholder whose name goes on with `name` and then
/// closes, a template gives the value of the whole name and then what the
/// rest of it gives.
pub proof fn lemma_expansion_reads_name(
    template: Seq<char>,
    vars: Seq<(Seq<char>, Seq<char>)>,
    read: Seq<char>,
    name: Seq<char>,
)
    requires
        forall|i: int| 0 <= i < name.len() ==> name[i] != '}',
        template.len() > name.len(),
        template.take(name.len() as int) == name,
        template[name.len() as int] == '}',
    ensures
        expansion_from(template, vars, Some(read)) == joined(
            value_of(vars, read + name),
            expansion_from(template.skip(name.len() as int + 1), vars, None),
        ),
        is_simple_from(template, true) == ((forall|i: int|
            0 <= i < name.len() ==> name[i] != '{' && name[i] != ':') && is_simple_from(
            template.skip(name.len() as int + 1),
            false,
        )),
    decreases name.len(),
{
    let rest = template.drop_first();
    if name.len() == 0 {
        assert(read + name =~= read);
        assert(template.skip(1) =~= rest);
    } else {
        let first = template[0];
        let shorter = name.drop_first();
        assert(first == name[0]) by {
            assert(template.take(name.len() as int)[0] == name[0]);
        }
        assert(rest.take(shorter.len() as int) =~= shorter) by {
            assert forall|i: int| 0 <= i < shorter.len() implies rest.take(
                shorter.len() as int,
            )[i] == shorter[i] by {
                assert(template.take(name.len() as int)[i + 1] == name[i + 1]);
            }
        }
        assert forall|i: int| 0 <= i < shorter.len() implies shorter[i] != '}' by {
            assert(shorter[i] == name[i + 1]);
        }
        lemma_expansion_reads_name(rest, vars, read.push(first), shorter);
        assert(read.push(first) + shorter =~= read + name);
        assert(rest.skip(shorter.len() as int + 1) =~= template.skip(name.len() as int + 1));
        assert((forall|i: int| 0 <= i < name.len() ==> name[i] != '{' && name[i] != ':') == (
        first != '{' && first != ':' && (forall|i: int|
            0 <= i < shorter.len() ==> shorter[i] != '{' && shorter[i] != ':'))) by {
            if forall|i: int| 0 <= i < name.len() ==> name[i] != '{' && name[i] != ':' {
                assert forall|i: int| 0 <= i < shorter.len() implies shorter[i] != '{'
                    && shorter[i] != ':' by {
                    assert(shorter[i] == name[i + 1]);
                }
            }
            if first != '{' && first != ':' && (forall|i: int|
                0 <= i < shorter.len() ==> shorter[i] != '{' && shorter[i] != ':') {
                assert forall|i: int| 0 <= i < name.len() implies name[i] != '{' && name[i]
                    != ':' by {
                    if i > 0 {
                        assert(shorter[i - 1] == name[i]);
                    }
                }
            }
        }
    }
}

/// A template without braces is simple and stays as it is.
pub proof fn lemma_expansion_without_braces(template: Seq<char>, vars: Seq<(Seq<char>, Seq<char>)>)
    requires
        brace_free(template),
    ensures
        is_simple(template),
        expansion(template, vars) == Some(template),
    decreases template.len(),
{
    if template.len() > 0 {
        let rest = template.drop_first();
        assert forall|i: int| 0 <= i < rest.len() implies rest[i] != '{' && rest[i] != '}' by {
            assert(rest[i] == template[i + 1]);
        }
        lemma_expansion_without_braces(rest, vars);
        assert(seq![template[0]] + rest =~= template);
    } else {
        assert(template =~= Seq::<char>::empty());
    }
}

/// A text without braces, then the placeholder of a name, then a template:
/// that is simple where the template is, and becomes the text, the value of
/// the name and what the template becomes, or nothing where the name has no
/// value.
pub proof fn lemma_expansion_of_placeholder(
    head: Seq<char>,
    name: Seq<char>,
    rest: Seq<char>,
    vars: Seq<(Seq<char>, Seq<char>)>,
)
    requires
        brace_free(head),
        is_name(name),
    ensures
        is_simple(head + placeholder(name) + rest) == is_simple(rest),
        expansion(head + placeholder(name) + rest, vars) == joined(
            joined(Some(head), value_of(vars, name)),
            expansion(rest, vars),
        ),
    decreases head.len(),
{
    let whole = head + placeholder(name) + rest;
    let behind = whole.drop_first();
    if head.len() == 0 {
        assert(whole[0] == '{');
        assert(behind.take(name.len() as int) =~= name);
        assert(behind[name.len() as int] == '}');
        assert(behind.skip(name.len() as int + 1) =~= rest);
        assert(behind[0] == name[0]);
        lemma_expansion_reads_name(behind, vars, Seq::<char>::empty(), name);
        assert(Seq::<char>::empty() + name =~= name);
        match (value_of(vars, name), expansion(rest, vars)) {
            (Some(value), Some(tail)) => {
                assert(head + value + tail =~= value + tail);
            },
            _ => {},
        }
    } else {
        let shorter = head.drop_first();
        assert forall|i: int| 0 <= i < shorter.len() implies shorter[i] != '{' && shorter[i]
            != '}' by {
            assert(shorter[i] == head[i + 1]);
        }
        assert(whole[0] == head[0]);
        assert(behind =~= shorter + placeholder(name) + rest);
        lemma_expansion_of_placeholder(shorter, name, rest, vars);
        match (value_of(vars, name), expansion(rest, vars)) {
            (Some(value), Some(tail)) => {
                assert(seq![head[0]] + (shorter + value + tail) =~= head + value + tail);
            },
            _ => {},
        }
    }
}

/// What a simple template becomes holds the value of every variable whose
/// placeholder the template holds.
pub proof fn lemma_expansion_holds_value(
    template: Seq<char>,
    vars: Seq<(Seq<char>, Seq<char>)>,
    read: Option<Seq<char>>,
    name: Seq<char>,
)
    requires
        is_simple_from(template, read is Some),
        forall|i: int| 0 <= i < name.len() ==> name[i] != '}',
        has_infix(template, placeholder(name)),
        value_of(vars, name) is Some,
        expansion_from(template, vars, read) is Some,
    ensures
        has_infix(expansion_from(template, vars, read)->0, value_of(vars, name)->0),
    decreases template.len(),
{
    let token = placeholder(name);
    let value = value_of(vars, name)->0;
    let at = choose|at: int| occurs_at(template, token, at);
    assert(template.subrange(at, at + token.len())[0] == token[0]);
    assert(template[at] == '{');
    let rest = template.drop_first();
    if at == 0 {
        // The placeholder stands first: its value stands first in the result.
        assert(read is None);
        assert(rest.take(name.len() as int) =~= name) by {
            assert forall|i: int| 0 <= i < name.len() implies rest.take(name.len() as int)[i]
                == name[i] by {
                assert(template.subrange(0, token.len() as int)[i + 1] == token[i + 1]);
            }
        }
        assert(rest[name.len() as int] == '}') by {
            assert(template.subrange(0, token.len() as int)[name.len() as int + 1]
                == token[name.len() as int + 1]);
        }
        lemma_expansion_reads_name(rest, vars, Seq::<char>::empty(), name);
        assert(Seq::<char>::empty() + name =~= name);
        let tail = expansion_from(rest.skip(name.len() as int + 1), vars, None)->0;
        assert((value + tail).subrange(0, value.len() as int) =~= value);
        assert(occurs_at(value + tail, value, 0));
    } else {
        assert(rest.subrange(at - 1, at - 1 + token.len()) =~= template.subrange(
            at,
            at + token.len(),
        ));
        assert(occurs_at(rest, token, at - 1));
        match read {
            Some(so_far) => {
                if template[0] == '}' {
                    lemma_expansion_holds_value(rest, vars, None, name);
                    lemma_infix_behind(
                        value_of(vars, so_far)->0,
                        expansion_from(rest, vars, None)->0,
                        value,
                    );
                } else {
                    lemma_expansion_holds_value(
                        rest,
                        vars,
                        Some(so_far.push(template[0])),
                        name,
                    );
                }
            },
            None => {
                if template[0] == '{' {
                    lemma_expansion_holds_value(rest, vars, Some(Seq::<char>::empty()), name);
                } else {
                    lemma_expansion_holds_value(rest, vars, None, name);
                    lemma_infix_behind(
                        seq![template[0]],
                        expansion_from(rest, vars, None)->0,
                        value,
                    );
                }
            },
        }
    }
}

/// What a simple template becomes does not depend on a variable whose
/// placeholder it does not hold: two lists of variables that agree on every
/// other name give the same.
pub proof fn lemma_expansion_ignores_unnamed(
    template: Seq<char>,
    first: Seq<(Seq<char>, Seq<char>)>,
    second: Seq<(Seq<char>, Seq<char>)>,
    read: Option<Seq<char>>,
    name: Seq<char>,
)
    requires
        is_simple_from(template, read is Some),
        forall|other: Seq<char>|
            other != name ==> #[trigger] value_of(first, other) == value_of(second, other),
        match read {
            Some(so_far) => !has_infix(seq!['{'] + so_far + template, placeholder(name)),
            None => !has_infix(template, placeholder(name)),
        },
    ensures
        expansion_from(template, first, read) == expansion_from(template, second, read),
    decreases template.len(),
{
    let token = placeholder(name);
    if template.len() > 0 {
        let rest = template.drop_first();
        match read {
            Some(so_far) => {
                let opened = seq!['{'] + so_far + template;
                if template[0] == '}' {
                    if so_far == name {
                        assert(opened.subrange(0, token.len() as int) =~= token);
                        assert(occurs_at(opened, token, 0));
                    }
                    if has_infix(rest, token) {
                        assert(opened =~= (seq!['{'] + so_far + seq!['}']) + rest);
                        lemma_infix_behind(seq!['{'] + so_far + seq!['}'], rest, token);
                    }
                    lemma_expansion_ignores_unnamed(rest, first, second, None, name);
                } else {
                    assert(seq!['{'] + so_far.push(template[0]) + rest =~= opened);
                    lemma_expansion_ignores_unnamed(
                        rest,
                        first,
                        second,
                        Some(so_far.push(template[0])),
                        name,
                    );
                }
            },
            None => {
                if template[0] == '{' {
                    assert(seq!['{'] + Seq::<char>::empty() + rest =~= template);
                    lemma_expansion_ignores_unnamed(
                        rest,
                        first,
                        second,
                        Some(Seq::<char>::empty()),
                        name,
                    );
                } else {
                    if has_infix(rest, token) {
                        assert(template =~= seq![template[0]] + rest);
                        lemma_infix_behind(seq![template[0]], rest, token);
                    }
                    lemma_expansion_ignores_unnamed(rest, first, second, None, name);
                }
            },
        }
    }
}

} // verus!
