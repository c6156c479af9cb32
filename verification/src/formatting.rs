//! The text of a briefing: padded names in bold, and URLs filled in from
//! templates.

use vstd::prelude::*;
use vstd::string::*;
use crate::template::{
    brace_free, closes_between, expansion, has_bare_placeholders, is_simple, joined,
    lemma_expansion_holds_value, lemma_expansion_ignores_unnamed, lemma_expansion_of_placeholder,
    lemma_expansion_without_braces, lemma_simple_is_bare, placeholder, value_of,
};
use crate::text::{blank, byte_len, chars_of, has_infix, spaces};

verus! {

/// The escape sequence that switches bold on.
pub open spec fn bold_on() -> Seq<char> {
    seq!['\u{1b}', '[', '1', 'm']
}

/// The escape sequence that switches every style off.
pub open spec fn style_off() -> Seq<char> {
    seq!['\u{1b}', '[', '0', 'm']
}

/// `text` between the escape sequences that make a terminal show it in bold.
pub open spec fn bold_text(text: Seq<char>) -> Seq<char> {
    bold_on() + text + style_off()
}

/// `text` after as many spaces as bring its bytes up to `width`.
pub open spec fn padded(width: nat, text: Seq<char>) -> Seq<char> {
    spaces((width - byte_len(text)) as nat) + text
}

/// The line of one URL under a package: the first URL follows the name, each
/// further one stands under it behind a blank margin.
pub open spec fn url_line(margin_width: nat, first: bool, url: Seq<char>) -> Seq<char> {
    (if first {
        Seq::<char>::empty()
    } else {
        spaces(margin_width)
    }) + seq![' '] + url + seq!['\n']
}

/// The lines of the URLs of one package.
pub open spec fn url_lines(margin_width: nat, urls: Seq<Seq<char>>) -> Seq<char>
    decreases urls.len(),
{
    if urls.len() == 0 {
        Seq::<char>::empty()
    } else {
        url_lines(margin_width, urls.drop_last()) + url_line(
            margin_width,
            urls.len() == 1,
            urls.last(),
        )
    }
}

/// What a briefing shows of one package: its name in bold, right-aligned in
/// the margin, then its URLs, one to a line.
pub open spec fn package_output_text(
    margin_width: nat,
    package_name: Seq<char>,
    urls: Seq<Seq<char>>,
) -> Seq<char> {
    bold_text(padded(margin_width, package_name)) + url_lines(margin_width, urls)
}

/// The header of a section: a blank margin, a space and the title, in bold.
pub open spec fn section_header_text(margin_width: nat, header: Seq<char>) -> Seq<char> {
    bold_text(spaces(margin_width) + seq![' '] + header)
}

/// What `strfmt` makes of `template` with the given variables, each a name
/// and its value: the text with every `{name}` filled in, or `None` where
/// `strfmt` reports an error.
pub uninterp spec fn strfmt_output(
    template: Seq<char>,
    vars: Seq<(Seq<char>, Seq<char>)>,
) -> Option<Seq<char>>;

/// What becomes of `template` with the given variables filled in, or `None`
/// where it cannot be filled in: where a placeholder holds a layout, or
/// `strfmt` reports an error.
pub open spec fn filled_in(template: Seq<char>, vars: Seq<(Seq<char>, Seq<char>)>) -> Option<
    Seq<char>,
> {
    if has_bare_placeholders(template) {
        strfmt_output(template, vars)
    } else {
        None
    }
}

/// The variables that a URL template may use.
pub open spec fn url_vars(old_version: Seq<char>, new_version: Seq<char>) -> Seq<
    (Seq<char>, Seq<char>),
> {
    seq![("version"@, new_version), ("old_version"@, old_version)]
}

/// The URL that `template` gives for an upgrade between the two versions, or
/// `None` where the template cannot be filled in.
pub open spec fn formatted_url(
    template: Seq<char>,
    old_version: Seq<char>,
    new_version: Seq<char>,
) -> Option<Seq<char>> {
    filled_in(template, url_vars(old_version, new_version))
}

/// The values of the variables of a URL template: `version` is the new
/// version, `old_version` the old one, and there is no other.
pub proof fn lemma_url_vars(old_version: Seq<char>, new_version: Seq<char>)
    ensures
        value_of(url_vars(old_version, new_version), "version"@) == Some(new_version),
        value_of(url_vars(old_version, new_version), "old_version"@) == Some(old_version),
        forall|name: Seq<char>|
            name != "version"@ && name != "old_version"@ ==> #[trigger] value_of(
                url_vars(old_version, new_version),
                name,
            ) is None,
        placeholder("version"@) == "{version}"@,
        placeholder("old_version"@) == "{old_version}"@,
        forall|i: int| 0 <= i < "version"@.len() ==> "version"@[i] != '}',
        crate::template::is_name("version"@),
        crate::template::is_name("old_version"@),
{
    reveal_strlit("version");
    reveal_strlit("old_version");
    reveal_strlit("{version}");
    reveal_strlit("{old_version}");
    let vars = url_vars(old_version, new_version);
    assert("version"@ != "old_version"@) by {
        assert("version"@.len() != "old_version"@.len());
    }
    assert(vars.drop_last() =~= seq![("version"@, new_version)]);
    assert(vars.drop_last().drop_last() =~= Seq::<(Seq<char>, Seq<char>)>::empty());
    reveal_with_fuel(value_of, 3);
    assert(placeholder("version"@) =~= "{version}"@);
    assert(placeholder("old_version"@) =~= "{old_version}"@);
}

/// A template that holds braces only around the names of placeholders, and
/// `{version}` among them, gives a URL that holds the new version as it
/// stands.
pub proof fn lemma_url_holds_new_version(
    template: Seq<char>,
    old_version: Seq<char>,
    new_version: Seq<char>,
)
    requires
        is_simple(template),
        has_infix(template, "{version}"@),
        expansion(template, url_vars(old_version, new_version)) is Some,
    ensures
        has_infix(expansion(template, url_vars(old_version, new_version))->0, new_version),
{
    lemma_url_vars(old_version, new_version);
    lemma_expansion_holds_value(
        template,
        url_vars(old_version, new_version),
        None,
        "version"@,
    );
}

/// The old version has no part in the URL of a template that holds braces
/// only around the names of placeholders, and `{old_version}` not among them.
pub proof fn lemma_url_without_old_version(
    template: Seq<char>,
    old_version: Seq<char>,
    other_old_version: Seq<char>,
    new_version: Seq<char>,
)
    requires
        is_simple(template),
        !has_infix(template, "{old_version}"@),
    ensures
        expansion(template, url_vars(old_version, new_version)) == expansion(
            template,
            url_vars(other_old_version, new_version),
        ),
{
    lemma_url_vars(old_version, new_version);
    lemma_url_vars(other_old_version, new_version);
    let first = url_vars(old_version, new_version);
    let second = url_vars(other_old_version, new_version);
    assert forall|other: Seq<char>| other != "old_version"@ implies #[trigger] value_of(
        first,
        other,
    ) == value_of(second, other) by {
        if other != "version"@ {
            assert(value_of(first, other) is None);
            assert(value_of(second, other) is None);
        }
    }
    lemma_expansion_ignores_unnamed(template, first, second, None, "old_version"@);
}

/// A text without braces, then `{version}`, then a text without braces: the
/// URL is the first text, the new version and the second text.
pub proof fn lemma_url_of_one_placeholder(
    head: Seq<char>,
    tail: Seq<char>,
    old_version: Seq<char>,
    new_version: Seq<char>,
)
    requires
        brace_free(head),
        brace_free(tail),
    ensures
        is_simple(head + "{version}"@ + tail),
        expansion(head + "{version}"@ + tail, url_vars(old_version, new_version)) == Some(
            head + new_version + tail,
        ),
{
    let vars = url_vars(old_version, new_version);
    lemma_url_vars(old_version, new_version);
    lemma_expansion_without_braces(tail, vars);
    lemma_expansion_of_placeholder(head, "version"@, tail, vars);
    assert(joined(joined(Some(head), Some(new_version)), Some(tail)) == Some(
        head + new_version + tail,
    ));
}

/// `ansi_term::Style::new().bold().paint(text)`, written out with
/// `to_string`.
///
/// Trusted: the result is `text` between the escape sequences `ESC [ 1 m` and
/// `ESC [ 0 m`.
#[verifier::external_body]
fn bold(text: String) -> (r: String)
    ensures
        r@ == bold_text(text@),
{
    ansi_term::Style::new().bold().paint(text).to_string()
}

/// `strfmt::strfmt` on `template`, with `vars` collected into the map of
/// variables that it takes; of two entries with one name the later counts.
/// No placeholder may hold a layout: to a placeholder with a layout `strfmt`
/// gives the width that the layout names, whatever it costs.
///
/// Trusted: the result is the one named [`strfmt_output`]. For a template
/// that holds braces only around the names of placeholders it is the template
/// with the value of each placeholder's variable in place of the placeholder,
/// and an error where a placeholder names no variable.
#[verifier::external_body]
fn substitute(template: &str, vars: &Vec<(&str, &str)>) -> (r: Option<String>)
    requires
        has_bare_placeholders(template@),
    ensures
        r.deep_view() == strfmt_output(template@, vars.deep_view()),
        is_simple(template@) ==> r.deep_view() == expansion(template@, vars.deep_view()),
{
    let table: std::collections::HashMap<String, &str> = vars.iter().map(
        |var| (var.0.to_string(), var.1),
    ).collect();
    strfmt::strfmt(template, &table).ok()
}

/// Whether no placeholder of `template` holds a layout.
pub fn bare_placeholders(template: &str) -> (r: bool)
    ensures
        r == has_bare_placeholders(template@),
{
    let chars = chars_of(template);
    let mut seen = false;
    let mut inside = false;
    let mut open: usize = 0;
    let mut i: usize = 0;
    while i < chars.len()
        invariant
            chars@ == template@,
            i <= chars@.len(),
            inside ==> seen,
            seen ==> open < i && chars@[open as int] == '{',
            seen ==> forall|p: int| open < p < i ==> chars@[p] != '{',
            !seen ==> forall|p: int| 0 <= p < i ==> chars@[p] != '{',
            inside ==> forall|j: int| open + 1 < j < i ==> chars@[j] != '}',
            seen && !inside ==> closes_between(chars@, open as int, i as int),
            forall|p: int, k: int|
                #![trigger chars@[p], chars@[k]]
                0 <= p < k < i && chars@[p] == '{' && chars@[k] == ':' ==> closes_between(
                    chars@,
                    p,
                    k,
                ),
        decreases chars@.len() - i,
    {
        let c = chars[i];
        if c == ':' {
            if inside {
                assert(!closes_between(chars@, open as int, i as int));
                return false;
            }
            proof {
                if seen {
                    let j = choose|j: int| open + 1 < j < i && #[trigger] chars@[j] == '}';
                    assert forall|p: int| 0 <= p < i && chars@[p] == '{' implies closes_between(
                        chars@,
                        p,
                        i as int,
                    ) by {
                        assert(chars@[j] == '}');
                    }
                }
            }
        } else if c == '{' {
            seen = true;
            inside = true;
            open = i;
        } else if c == '}' {
            if inside && i > open + 1 {
                inside = false;
                assert(chars@[i as int] == '}');
            } else if seen && !inside {
                let ghost j = choose|j: int| open + 1 < j < i && #[trigger] chars@[j] == '}';
                assert(chars@[j] == '}');
            }
        } else {
            proof {
                if seen && !inside {
                    let j = choose|j: int| open + 1 < j < i && #[trigger] chars@[j] == '}';
                    assert(chars@[j] == '}');
                }
            }
        }
        i += 1;
    }
    true
}

/// `template` with the variables `vars` filled in, each a name and its
/// value, or `None` where it cannot be filled in. A template that holds
/// braces only around the names of placeholders gets the value of each
/// placeholder's variable in place of the placeholder.
pub fn fill_in(template: &str, vars: &Vec<(&str, &str)>) -> (r: Option<String>)
    ensures
        r.deep_view() == filled_in(template@, vars.deep_view()),
        is_simple(template@) ==> r.deep_view() == expansion(template@, vars.deep_view()),
{
    proof {
        if is_simple(template@) {
            lemma_simple_is_bare(template@);
        }
    }
    if bare_placeholders(template) {
        substitute(template, vars)
    } else {
        None
    }
}

/// `text`, right-aligned in a field of `width` bytes.
pub fn left_pad_to_width(width: usize, text: &str) -> (r: String)
    requires
        byte_len(text@) <= width,
    ensures
        r@ == padded(width as nat, text@),
{
    let mut buf = blank(width - text.len());
    buf.append(text);
    buf
}

/// What a briefing shows of one package: see [`package_output_text`].
pub fn package_output(margin_width: usize, package_name: &str, urls: &Vec<String>) -> (r: String)
    requires
        byte_len(package_name@) <= margin_width,
    ensures
        r@ == package_output_text(margin_width as nat, package_name@, urls.deep_view()),
{
    let ghost all = urls.deep_view();
    let mut buf = bold(left_pad_to_width(margin_width, package_name));
    let mut i: usize = 0;
    while i < urls.len()
        invariant
            all == urls.deep_view(),
            i <= urls@.len(),
            buf@ == package_output_text(margin_width as nat, package_name@, all.take(i as int)),
        decreases urls@.len() - i,
    {
        if i != 0 {
            let margin = blank(margin_width);
            buf.append(margin.as_str());
        }
        proof {
            reveal_strlit(" ");
            reveal_strlit("\n");
        }
        buf.append(" ");
        buf.append(urls[i].as_str());
        buf.append("\n");
        proof {
            let next = all.take(i + 1);
            assert(next.drop_last() =~= all.take(i as int));
        }
        i += 1;
    }
    assert(all.take(i as int) =~= all);
    buf
}

/// The URL that `template` gives for an upgrade from `old_version` to
/// `new_version`, or `None` where the template cannot be filled in: where it
/// names a variable other than `version` and `old_version`, where a
/// placeholder holds a layout, or where it is no template at all.
pub fn try_format_url(template: &str, old_version: &str, new_version: &str) -> (r: Option<String>)
    ensures
        r.deep_view() == formatted_url(template@, old_version@, new_version@),
        is_simple(template@) ==> r.deep_view() == expansion(
            template@,
            url_vars(old_version@, new_version@),
        ),
{
    let vars: Vec<(&str, &str)> = vec![("version", new_version), ("old_version", old_version)];
    assert(vars.deep_view() =~= url_vars(old_version@, new_version@));
    match fill_in(template, &vars) {
        Some(_) => Some(format_url(template, old_version, new_version)),
        None => None,
    }
}

/// The URL that `template` gives for an upgrade from `old_version` to
/// `new_version`: `{version}` stands for the new version, `{old_version}` for
/// the old one. The template must be one that can be filled in;
/// [`try_format_url`] tells.
pub fn format_url(template: &str, old_version: &str, new_version: &str) -> (r: String)
    requires
        formatted_url(template@, old_version@, new_version@) is Some,
    ensures
        Some(r@) == formatted_url(template@, old_version@, new_version@),
        is_simple(template@) ==> Some(r@) == expansion(
            template@,
            url_vars(old_version@, new_version@),
        ),
{
    let vars: Vec<(&str, &str)> = vec![("version", new_version), ("old_version", old_version)];
    assert(vars.deep_view() =~= url_vars(old_version@, new_version@));
    match fill_in(template, &vars) {
        Some(url) => url,
        None => String::new(),
    }
}

/// The header of a section of a briefing: see [`section_header_text`].
pub fn section_header(margin_width: usize, header: &str) -> (r: String)
    ensures
        r@ == section_header_text(margin_width as nat, header@),
{
    let mut buf = blank(margin_width);
    proof {
        reveal_strlit(" ");
    }
    buf.append(" ");
    buf.append(header);
    bold(buf)
}

} // verus!
