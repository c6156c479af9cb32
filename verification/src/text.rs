//! Strings as the rest of the library compares and builds them.
//!
//! Rust orders and measures a string by its UTF-8 bytes. Contracts speak of
//! strings by their characters, so the order and the length used here are
//! stated over the encoding of those characters.

use vstd::prelude::*;
use vstd::string::*;
use vstd::utf8::*;

verus! {

/// Number of bytes that `text` takes in UTF-8.
pub open spec fn byte_len(text: Seq<char>) -> nat {
    encode_utf8(text).len()
}

/// `a` and `b` agree before position `k`, and at `k` either `a` ends while `b`
/// goes on, or `a` holds the smaller byte.
pub open spec fn bytes_precede_at(a: Seq<u8>, b: Seq<u8>, k: int) -> bool {
    &&& 0 <= k <= a.len()
    &&& k < b.len()
    &&& forall|i: int| 0 <= i < k ==> a[i] == b[i]
    &&& (k == a.len() || a[k] < b[k])
}

/// Lexicographic order on byte strings.
pub open spec fn bytes_precede(a: Seq<u8>, b: Seq<u8>) -> bool {
    exists|k: int| bytes_precede_at(a, b, k)
}

/// The order of `String` and `str`: lexicographic on the UTF-8 bytes.
pub open spec fn precedes(a: Seq<char>, b: Seq<char>) -> bool {
    bytes_precede(encode_utf8(a), encode_utf8(b))
}

/// How one string stands to another in the order of [`precedes`].
#[derive(Clone, Copy, Debug, PartialEq, Eq, Structural)]
pub enum Position {
    Before,
    Same,
    After,
}

/// No byte string precedes itself, and of two byte strings at most one
/// precedes the other.
pub proof fn lemma_bytes_precede_asymmetric(a: Seq<u8>, b: Seq<u8>)
    requires
        bytes_precede(a, b),
    ensures
        a != b,
        !bytes_precede(b, a),
{
}

/// The order on byte strings is transitive.
pub proof fn lemma_bytes_precede_transitive(a: Seq<u8>, b: Seq<u8>, c: Seq<u8>)
    requires
        bytes_precede(a, b),
        bytes_precede(b, c),
    ensures
        bytes_precede(a, c),
{
    let j = choose|j: int| bytes_precede_at(a, b, j);
    let k = choose|k: int| bytes_precede_at(b, c, k);
    let m = if j <= k {
        j
    } else {
        k
    };
    assert(bytes_precede_at(a, c, m));
}

/// Two strings with the same UTF-8 bytes are the same string.
pub proof fn lemma_encoding_injective(a: Seq<char>, b: Seq<char>)
    requires
        encode_utf8(a) == encode_utf8(b),
    ensures
        a == b,
{
    encode_utf8_decode_utf8(a);
    encode_utf8_decode_utf8(b);
}

/// [`precedes`] is a strict order: irreflexive and asymmetric.
pub proof fn lemma_precedes_asymmetric(a: Seq<char>, b: Seq<char>)
    requires
        precedes(a, b),
    ensures
        a != b,
        !precedes(b, a),
{
    lemma_bytes_precede_asymmetric(encode_utf8(a), encode_utf8(b));
}

/// [`precedes`] is transitive.
pub proof fn lemma_precedes_transitive(a: Seq<char>, b: Seq<char>, c: Seq<char>)
    requires
        precedes(a, b),
        precedes(b, c),
    ensures
        precedes(a, c),
{
    lemma_bytes_precede_transitive(encode_utf8(a), encode_utf8(b), encode_utf8(c));
}

/// Compares two strings as Rust's `Ord` for `str` does, byte by byte.
pub fn compare(a: &str, b: &str) -> (r: Position)
    ensures
        r == Position::Before <==> precedes(a@, b@),
        r == Position::Same <==> a@ == b@,
        r == Position::After <==> precedes(b@, a@),
{
    let x = a.as_bytes();
    let y = b.as_bytes();
    let mut i: usize = 0;
    while i < x.len() && i < y.len() && x[i] == y[i]
        invariant
            0 <= i <= x@.len(),
            i <= y@.len(),
            forall|j: int| 0 <= j < i ==> x@[j] == y@[j],
        decreases x@.len() - i,
    {
        i += 1;
    }
    let r = if i == x.len() {
        if i == y.len() {
            Position::Same
        } else {
            Position::Before
        }
    } else if i == y.len() {
        Position::After
    } else if x[i] < y[i] {
        Position::Before
    } else {
        Position::After
    };
    proof {
        let ea = encode_utf8(a@);
        let eb = encode_utf8(b@);
        if r == Position::Same {
            assert(ea =~= eb);
            lemma_encoding_injective(a@, b@);
        } else if r == Position::Before {
            assert(bytes_precede_at(ea, eb, i as int));
            lemma_bytes_precede_asymmetric(ea, eb);
        } else {
            assert(bytes_precede_at(eb, ea, i as int));
            lemma_bytes_precede_asymmetric(eb, ea);
        }
    }
    r
}

/// Whether two strings hold the same characters.
pub fn same_text(a: &str, b: &str) -> (r: bool)
    ensures
        r == (a@ == b@),
{
    compare(a, b) == Position::Same
}

/// Whether `needle` occurs in `text` at position `at`.
pub open spec fn occurs_at(text: Seq<char>, needle: Seq<char>, at: int) -> bool {
    &&& 0 <= at
    &&& at + needle.len() <= text.len()
    &&& text.subrange(at, at + needle.len()) == needle
}

/// Whether `needle` occurs somewhere in `text` as a run of consecutive
/// characters.
pub open spec fn has_infix(text: Seq<char>, needle: Seq<char>) -> bool {
    exists|at: int| occurs_at(text, needle, at)
}

/// The characters of `text`.
pub fn chars_of(text: &str) -> (r: Vec<char>)
    ensures
        r@ == text@,
{
    let mut out: Vec<char> = Vec::new();
    for c in it: text.chars()
        invariant
            it.seq() == text@,
            out@ == it.seq().take(it.index() as int),
    {
        out.push(c);
    }
    out
}

/// Whether `needle` starts at position `at` of `text`.
fn matches_at(text: &Vec<char>, needle: &Vec<char>, at: usize) -> (r: bool)
    requires
        at + needle@.len() <= text@.len(),
    ensures
        r == occurs_at(text@, needle@, at as int),
{
    let total: usize = text.len();
    let mut j: usize = 0;
    while j < needle.len()
        invariant
            at + needle@.len() <= text@.len() == total,
            j <= needle@.len(),
            forall|k: int| 0 <= k < j ==> text@[at + k] == needle@[k],
        decreases needle@.len() - j,
    {
        if text[at + j] != needle[j] {
            return false;
        }
        j += 1;
    }
    assert(text@.subrange(at as int, at + needle@.len()) =~= needle@);
    true
}

/// Whether `needle` occurs somewhere in `text`, as `str::contains` tells it.
pub fn contains(text: &str, needle: &str) -> (r: bool)
    ensures
        r == has_infix(text@, needle@),
{
    let hay = chars_of(text);
    let pin = chars_of(needle);
    if pin.len() == 0 {
        assert(text@.subrange(0, 0) =~= needle@);
        assert(occurs_at(text@, needle@, 0));
        return true;
    }
    if pin.len() > hay.len() {
        return false;
    }
    let starts: usize = hay.len() - pin.len() + 1;
    let mut at: usize = 0;
    while at < starts
        invariant
            hay@ == text@,
            pin@ == needle@,
            starts == hay@.len() - pin@.len() + 1,
            at <= starts,
            forall|k: int| 0 <= k < at ==> !occurs_at(text@, needle@, k),
        decreases starts - at,
    {
        if matches_at(&hay, &pin, at) {
            return true;
        }
        at += 1;
    }
    false
}

/// `n` spaces.
pub open spec fn spaces(n: nat) -> Seq<char> {
    Seq::new(n, |i: int| ' ')
}

/// A string of `n` spaces.
pub fn blank(n: usize) -> (r: String)
    ensures
        r@ == spaces(n as nat),
{
    let mut out = String::new();
    let mut i: usize = 0;
    while i < n
        invariant
            i <= n,
            out@ == spaces(i as nat),
        decreases n - i,
    {
        proof {
            reveal_strlit(" ");
        }
        out.append(" ");
        i += 1;
    }
    out
}

} // verus!
