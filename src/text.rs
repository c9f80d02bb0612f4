use vstd::prelude::*;
use vstd::string::StrSliceExecFns;
use vstd::string::StringExecFns;

verus! {

/// The decimal digit for `d < 10`.
pub open spec fn digit_char(d: nat) -> char {
    seq!['0', '1', '2', '3', '4', '5', '6', '7', '8', '9'][d as int]
}

/// The decimal text of `n`, without sign or leading zeros.
pub open spec fn decimal(n: nat) -> Seq<char>
    decreases n,
{
    if n < 10 {
        seq![digit_char(n)]
    } else {
        decimal(n / 10).push(digit_char(n % 10))
    }
}

/// The characters with Unicode's `White_Space` property.
pub open spec fn white_space(c: char) -> bool {
    ('\u{9}' <= c <= '\u{d}') || c == ' ' || c == '\u{85}' || c == '\u{a0}' || c == '\u{1680}'
        || ('\u{2000}' <= c <= '\u{200a}') || c == '\u{2028}' || c == '\u{2029}' || c
        == '\u{202f}' || c == '\u{205f}' || c == '\u{3000}'
}

/// Whether `c` is alphabetic or numeric in Unicode's tables.
pub uninterp spec fn alphanumeric_of(c: char) -> bool;

/// The lowercase mapping of a text under Unicode's tables.
pub uninterp spec fn lower_of(s: Seq<char>) -> Seq<char>;

/// Relies on `u16`'s `Display` (through `ToString`): decimal text without
/// sign or leading zeros.
#[verifier::external_body]
pub(crate) fn port_text(p: u16) -> (r: String)
    ensures
        r@ == decimal(p as nat),
{
    p.to_string()
}

/// Whether `c` has Unicode's `White_Space` property.
pub fn is_space(c: char) -> (r: bool)
    ensures
        r == white_space(c),
{
    match c {
        '\u{9}'..='\u{d}' | ' ' | '\u{85}' | '\u{a0}' | '\u{1680}' | '\u{2000}'..='\u{200a}'
        | '\u{2028}' | '\u{2029}' | '\u{202f}' | '\u{205f}' | '\u{3000}' => true,
        _ => false,
    }
}

/// An ASCII letter or digit.
pub open spec fn ascii_alnum(c: char) -> bool {
    ('a' <= c <= 'z') || ('A' <= c <= 'Z') || ('0' <= c <= '9')
}

/// The ASCII lowercase of a character; others are left as they are.
pub open spec fn ascii_lower(c: char) -> char {
    if 'A' <= c <= 'Z' {
        ((c as u32) + 32) as char
    } else {
        c
    }
}

/// Every character is ASCII.
pub open spec fn ascii_text(s: Seq<char>) -> bool {
    forall|i: int| 0 <= i < s.len() ==> (#[trigger] s[i] as u32) < 128
}

/// Relies on `char::is_alphanumeric`, which holds of ASCII letters and digits
/// and of no other ASCII character.
#[verifier::external_body]
fn is_alnum(c: char) -> (r: bool)
    ensures
        r == alphanumeric_of(c),
        (c as u32) < 128 ==> r == ascii_alnum(c),
{
    c.is_alphanumeric()
}

/// Relies on `str::to_lowercase`: the result depends on the text alone, and
/// ASCII text maps character by character to its ASCII lowercase.
#[verifier::external_body]
fn lowercase(s: &str) -> (r: String)
    ensures
        r@ == lower_of(s@),
        ascii_text(s@) ==> r@ == s@.map_values(|c: char| ascii_lower(c)),
{
    s.to_lowercase()
}

/// Relies on `String`'s `FromIterator<char>`: the characters in order.
#[verifier::external_body]
fn string_of(chars: &Vec<char>) -> (r: String)
    ensures
        r@ == chars@,
{
    chars.iter().collect()
}

/// Every character of `s` is white space (so an empty text is blank).
pub open spec fn blank(s: Seq<char>) -> bool {
    forall|i: int| 0 <= i < s.len() ==> white_space(#[trigger] s[i])
}

/// Whether `s` is empty after trimming white space.
pub fn is_blank(s: &str) -> (r: bool)
    ensures
        r == blank(s@),
{
    let n = s.unicode_len();
    let mut i: usize = 0;
    while i < n
        invariant
            n == s@.len(),
            i <= n,
            forall|k: int| 0 <= k < i ==> white_space(#[trigger] s@[k]),
        decreases n - i,
    {
        if !is_space(s.get_char(i)) {
            return false;
        }
        i = i + 1;
    }
    true
}

/// An id made from a lowercased name: white space becomes `-`, and of the
/// rest only alphanumeric characters and `-` are kept.
pub open spec fn slug(s: Seq<char>) -> Seq<char>
    decreases s.len(),
{
    if s.len() == 0 {
        Seq::empty()
    } else {
        let rest = slug(s.drop_last());
        let c = s.last();
        if white_space(c) {
            rest.push('-')
        } else if alphanumeric_of(c) || c == '-' {
            rest.push(c)
        } else {
            rest
        }
    }
}

/// `slug` on ASCII text, where alphanumeric means an ASCII letter or digit.
pub open spec fn ascii_slug(s: Seq<char>) -> Seq<char>
    decreases s.len(),
{
    if s.len() == 0 {
        Seq::empty()
    } else {
        let rest = ascii_slug(s.drop_last());
        let c = s.last();
        if white_space(c) {
            rest.push('-')
        } else if ascii_alnum(c) || c == '-' {
            rest.push(c)
        } else {
            rest
        }
    }
}

/// The slug of an already lowercased text: white space becomes `-`, and of
/// the rest only alphanumeric characters and `-` are kept.
pub fn slugify(s: &str) -> (r: String)
    ensures
        r@ == slug(s@),
        ascii_text(s@) ==> r@ == ascii_slug(s@),
{
    let n = s.unicode_len();
    let mut out: Vec<char> = Vec::new();
    let mut i: usize = 0;
    while i < n
        invariant
            n == s@.len(),
            i <= n,
            out@ == slug(s@.subrange(0, i as int)),
            ascii_text(s@) ==> out@ == ascii_slug(s@.subrange(0, i as int)),
        decreases n - i,
    {
        let c = s.get_char(i);
        assert(s@.subrange(0, i + 1).drop_last() =~= s@.subrange(0, i as int));
        assert(ascii_text(s@) ==> (s@[i as int] as u32) < 128);
        if is_space(c) {
            out.push('-');
        } else if is_alnum(c) || c == '-' {
            out.push(c);
        }
        i = i + 1;
    }
    assert(s@.subrange(0, n as int) =~= s@);
    string_of(&out)
}

/// The id derived from a service name: its lowercase form made into a slug.
pub fn derive_service_id(name: &str) -> (r: String)
    ensures
        r@ == slug(lower_of(name@)),
        ascii_text(name@) ==> r@ == ascii_slug(name@.map_values(|c: char| ascii_lower(c))),
{
    let lower = lowercase(name);
    proof {
        if ascii_text(name@) {
            assert forall|i: int| 0 <= i < lower@.len() implies (#[trigger] lower@[i] as u32) < 128 by {
                assert((name@[i] as u32) < 128);
            }
        }
    }
    slugify(lower.as_str())
}

/// `seg` is the part of `path` after its last `/`, or all of it when it has none.
pub open spec fn last_segment(path: Seq<char>, seg: Seq<char>) -> bool {
    &&& seg.len() <= path.len()
    &&& seg == path.subrange(path.len() - seg.len(), path.len() as int)
    &&& forall|i: int| 0 <= i < seg.len() ==> #[trigger] seg[i] != '/'
    &&& (seg.len() == path.len() || path[path.len() - seg.len() - 1] == '/')
}

/// The file name at the end of a `/`-separated path.
pub fn file_name_of(path: &str) -> (r: String)
    ensures
        last_segment(path@, r@),
{
    let n = path.unicode_len();
    let mut k: usize = n;
    while k > 0
        invariant
            n == path@.len(),
            k <= n,
            forall|i: int| k <= i < n ==> #[trigger] path@[i] != '/',
        ensures
            k <= n,
            forall|i: int| k <= i < n ==> #[trigger] path@[i] != '/',
            k == 0 || path@[k - 1] == '/',
        decreases k,
    {
        if path.get_char(k - 1) == '/' {
            break;
        }
        k = k - 1;
    }
    let seg = path.substring_char(k, n);
    let r = String::from_str(seg);
    assert(r@ =~= path@.subrange(n - r@.len(), n as int));
    r
}

/// `a`, then `b`, then `c`.
pub(crate) fn join3(a: &str, b: &str, c: &str) -> (r: String)
    ensures
        r@ == a@ + b@ + c@,
{
    String::from_str(a).concat(b).concat(c)
}

} // verus!
