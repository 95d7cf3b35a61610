//! Character-level helpers over string views.

use vstd::prelude::*;
use crate::seqs::lemma_filter_push;

verus! {

/// The characters of `s`, in order.
pub fn str_chars(s: &str) -> (chars: Vec<char>)
    ensures
        chars@ == s@,
{
    let n = s.unicode_len();
    let mut chars: Vec<char> = Vec::new();
    let mut i: usize = 0;
    while i < n
        invariant
            n == s@.len(),
            i <= n,
            chars@ == s@.subrange(0, i as int),
        decreases n - i,
    {
        let c = s.get_char(i);
        chars.push(c);
        i = i + 1;
        assert(chars@ =~= s@.subrange(0, i as int));
    }
    assert(chars@ =~= s@);
    chars
}


/// Whether two string slices hold the same characters.
pub fn str_eq(a: &str, b: &str) -> (eq: bool)
    ensures
        eq == (a@ == b@),
{
    let ac = str_chars(a);
    let bc = str_chars(b);
    if ac.len() != bc.len() {
        return false;
    }
    let mut i: usize = 0;
    while i < ac.len()
        invariant
            ac@ == a@,
            bc@ == b@,
            ac@.len() == bc@.len(),
            i <= ac@.len(),
            forall|k: int| 0 <= k < i ==> ac@[k] == bc@[k],
        decreases ac.len() - i,
    {
        if ac[i] != bc[i] {
            return false;
        }
        i = i + 1;
    }
    assert(ac@ =~= bc@);
    true
}

/// An owned copy of `s`.
pub fn owned(s: &str) -> (r: String)
    ensures
        r@ == s@,
{
    String::from_str(s)
}

/// A copy of a list of strings, element by element.
pub fn clone_strings(v: &Vec<String>) -> (r: Vec<String>)
    ensures
        r@ == v@,
{
    let mut r: Vec<String> = Vec::new();
    let mut i: usize = 0;
    while i < v.len()
        invariant
            i <= v.len(),
            r@ == v@.subrange(0, i as int),
        decreases v.len() - i,
    {
        r.push(v[i].clone());
        i = i + 1;
        assert(r@ =~= v@.subrange(0, i as int));
    }
    assert(r@ =~= v@);
    r
}

/// A copy of an optional string.
pub fn copy_option_string(o: &Option<String>) -> (c: Option<String>)
    ensures
        c == *o,
{
    match o {
        Some(s) => Some(s.clone()),
        None => None,
    }
}

/// The text `format!("{:?}", v)` gives for a list of strings: each string
/// quoted and escaped, separated by commas, in square brackets.
pub uninterp spec fn debug_text_of_strings(v: Seq<Seq<char>>) -> Seq<char>;

/// `Debug` formatting (`format!("{:?}")`) of a list of strings.
#[verifier::external_body]
pub(crate) fn debug_strings(v: &Vec<String>) -> (s: String)
    ensures
        s@ == debug_text_of_strings(string_views(v@)),
{
    format!("{:?}", v)
}

/// The views of a list of strings.
pub open spec fn string_views(v: Seq<String>) -> Seq<Seq<char>> {
    v.map_values(|s: String| s@)
}

/// The test "differs from `x`".
pub open spec fn differs_from(x: Seq<char>) -> spec_fn(Seq<char>) -> bool {
    |y: Seq<char>| y != x
}

/// `s` without the occurrences of `x`.
pub open spec fn seq_without(s: Seq<Seq<char>>, x: Seq<char>) -> Seq<Seq<char>> {
    s.filter(differs_from(x))
}

/// Whether a list of strings holds one equal to `s`.
pub fn contains_str(v: &Vec<String>, s: &str) -> (found: bool)
    ensures
        found == string_views(v@).contains(s@),
{
    let mut i: usize = 0;
    while i < v.len()
        invariant
            i <= v.len(),
            forall|k: int| 0 <= k < i ==> v@[k]@ != s@,
        decreases v.len() - i,
    {
        if str_eq(v[i].as_str(), s) {
            assert(string_views(v@)[i as int] == s@);
            return true;
        }
        i = i + 1;
    }
    proof {
        if string_views(v@).contains(s@) {
            let k = choose|k: int| 0 <= k < string_views(v@).len() && string_views(v@)[k] == s@;
            assert(v@[k]@ == s@);
        }
    }
    false
}

/// Whether `have` holds one of `wanted`.
pub open spec fn holds_one_of(have: Seq<String>, wanted: Seq<String>) -> bool {
    exists|i: int| 0 <= i < wanted.len() && string_views(have).contains(#[trigger] wanted[i]@)
}

/// Whether `have` holds one of `wanted`.
pub fn has_one_of(have: &Vec<String>, wanted: &Vec<String>) -> (b: bool)
    ensures
        b == holds_one_of(have@, wanted@),
{
    let mut i: usize = 0;
    while i < wanted.len()
        invariant
            i <= wanted@.len(),
            forall|j: int| 0 <= j < i ==> !string_views(have@).contains(#[trigger] wanted@[j]@),
        decreases wanted.len() - i,
    {
        if contains_str(have, wanted[i].as_str()) {
            return true;
        }
        i = i + 1;
    }
    false
}

/// The list `v` without the strings equal to `s`, in the order they came.
pub fn without_str(v: &Vec<String>, s: &str) -> (r: Vec<String>)
    ensures
        string_views(r@) == string_views(v@).filter(|x: Seq<char>| x != s@),
{
    let ghost pred = |x: Seq<char>| x != s@;
    let mut r: Vec<String> = Vec::new();
    let mut i: usize = 0;
    while i < v.len()
        invariant
            i <= v.len(),
            pred == (|x: Seq<char>| x != s@),
            string_views(r@) == string_views(v@).subrange(0, i as int).filter(pred),
        decreases v.len() - i,
    {
        let ghost before = string_views(v@).subrange(0, i as int);
        assert(string_views(v@).subrange(0, i + 1) =~= before.push(v@[i as int]@));
        proof { lemma_filter_push(before, pred, v@[i as int]@); }
        if !str_eq(v[i].as_str(), s) {
            r.push(v[i].clone());
            assert(string_views(r@) =~= before.filter(pred).push(v@[i as int]@));
        }
        i = i + 1;
    }
    assert(string_views(v@).subrange(0, i as int) =~= string_views(v@));
    r
}

/// `a` followed by `b`.
pub(crate) fn concat(a: &str, b: &str) -> (r: String)
    ensures
        r@ == a@ + b@,
{
    let mut r = String::from_str(a);
    r.append(b);
    r
}

/// The characters of an optional string.
pub open spec fn opt_chars(o: Option<String>) -> Option<Seq<char>> {
    match o {
        Some(s) => Some(s@),
        None => None,
    }
}

/// The lowercase form of a string, as `str::to_lowercase` gives it.
pub uninterp spec fn lowercase(s: Seq<char>) -> Seq<char>;

/// Whether no character of `s` is changed by lowercasing: each is ASCII and
/// not an uppercase letter.
pub open spec fn ascii_without_uppercase(s: Seq<char>) -> bool {
    forall|i: int| 0 <= i < s.len() ==> (#[trigger] s[i] as u32) < 128 && !('A' <= s[i] && s[i] <= 'Z')
}

/// `str::to_lowercase`: the lowercase equivalent of `s` under Unicode's
/// `Lowercase` property. A string of ASCII characters with no uppercase
/// letter comes back unchanged, as the documentation of ASCII case mapping
/// shows.
#[verifier::external_body]
pub(crate) fn to_lowercase(s: &str) -> (r: String)
    ensures
        r@ == lowercase(s@),
        ascii_without_uppercase(s@) ==> r@ == s@,
{
    s.to_lowercase()
}

/// Whether `v` starts with `p`.
pub open spec fn seq_starts_with(v: Seq<char>, p: Seq<char>) -> bool {
    p.len() <= v.len() && v.subrange(0, p.len() as int) == p
}

/// Whether `s` starts with `p`.
pub fn str_starts_with(s: &str, p: &str) -> (b: bool)
    ensures
        b == seq_starts_with(s@, p@),
{
    let v = str_chars(s);
    let w = str_chars(p);
    let b = chars_match_at(&v, 0, &w, 0, w.len());
    assert(w@.subrange(0, w@.len() as int) =~= w@);
    b
}

/// Whether `v` ends with `p`.
pub open spec fn seq_ends_with(v: Seq<char>, p: Seq<char>) -> bool {
    p.len() <= v.len() && v.subrange(v.len() - p.len(), v.len() as int) == p
}

/// Whether the characters `p[start..end]` occur in `v` at `offset`.
pub fn chars_match_at(v: &Vec<char>, offset: usize, p: &Vec<char>, start: usize, end: usize) -> (b: bool)
    requires
        start <= end <= p@.len(),
    ensures
        b == (offset + (end - start) <= v@.len()
            && v@.subrange(offset as int, offset + (end - start)) == p@.subrange(start as int, end as int)),
{
    let len = end - start;
    if offset > v.len() || len > v.len() - offset {
        return false;
    }
    let mut k: usize = 0;
    while k < len
        invariant
            start <= end <= p@.len(),
            len == end - start,
            offset + len <= v.len(),
            k <= len,
            v@.subrange(offset as int, offset + k) == p@.subrange(start as int, start + k),
        decreases len - k,
    {
        if v[offset + k] != p[start + k] {
            assert(v@.subrange(offset as int, offset + len)[k as int] != p@.subrange(start as int, end as int)[k as int]);
            return false;
        }
        assert(v@.subrange(offset as int, offset + k + 1) =~= v@.subrange(offset as int, offset + k).push(v@[offset + k]));
        assert(p@.subrange(start as int, start + k + 1) =~= p@.subrange(start as int, start + k).push(p@[start + k]));
        k = k + 1;
    }
    assert(v@.subrange(offset as int, offset + len) =~= p@.subrange(start as int, end as int));
    true
}

/// The decimal digit `d` (from 0 to 9) as a character.
pub open spec fn digit_char(d: nat) -> char {
    (48 + d) as char
}

/// The decimal digits of `n`, most significant first, with no leading zero.
pub open spec fn decimal_digits(n: nat) -> Seq<char>
    decreases n,
{
    if n < 10 {
        seq![digit_char(n)]
    } else {
        decimal_digits(n / 10).push(digit_char(n % 10))
    }
}

/// The decimal text of an integer, as `ToString` gives it: a minus sign
/// before the digits of a negative number.
pub open spec fn decimal_text(n: i64) -> Seq<char> {
    if n < 0 {
        seq!['-'] + decimal_digits((-n) as nat)
    } else {
        decimal_digits(n as nat)
    }
}

/// `ToString::to_string` on an `i64`: its decimal text, which is never empty.
#[verifier::external_body]
pub(crate) fn i64_to_string(n: i64) -> (s: String)
    ensures
        s@ == decimal_text(n),
        s@.len() > 0,
{
    n.to_string()
}

/// `to` before each character of `s` and after the last: what replacing
/// the empty pattern gives, as it matches at every character boundary.
pub open spec fn interleaved(s: Seq<char>, to: Seq<char>) -> Seq<char>
    decreases s.len(),
{
    if s.len() == 0 {
        to
    } else {
        to + seq![s[0]] + interleaved(s.drop_first(), to)
    }
}

/// `s` with every occurrence of `from` replaced by `to`, as `str::replace`
/// gives it: occurrences are taken from the left without overlapping.
pub open spec fn replaced(s: Seq<char>, from: Seq<char>, to: Seq<char>) -> Seq<char>
    decreases s.len(),
{
    if from.len() == 0 {
        interleaved(s, to)
    } else if s.len() < from.len() {
        s
    } else if s.subrange(0, from.len() as int) == from {
        to + replaced(s.subrange(from.len() as int, s.len() as int), from, to)
    } else {
        seq![s[0]] + replaced(s.drop_first(), from, to)
    }
}

/// `str::replace`: `s` with each non-overlapping occurrence of `from`,
/// scanned from the left, replaced by `to`.
#[verifier::external_body]
pub(crate) fn replace_all(s: &str, from: &str, to: &str) -> (r: String)
    ensures
        r@ == replaced(s@, from@, to@),
{
    s.replace(from, to)
}

/// The path `base` joined with `rel`, as `std::path::Path::join` gives it,
/// read back as text.
pub uninterp spec fn path_joined(base: Seq<char>, rel: Seq<char>) -> Seq<char>;

/// `Path::join` on two paths given as text, the result read back with
/// `to_string_lossy`; for paths given as `&str`, which are valid UTF-8, the
/// text is the joined path.
#[verifier::external_body]
pub(crate) fn join_path(base: &str, rel: &str) -> (r: String)
    ensures
        r@ == path_joined(base@, rel@),
{
    std::path::Path::new(base).join(rel).to_string_lossy().into_owned()
}

/// Whether `c` has Unicode's `White_Space` property, as
/// `char::is_whitespace` tells.
pub uninterp spec fn unicode_whitespace(c: char) -> bool;

/// `char::is_whitespace`. The ASCII space, tab, line feed and carriage
/// return are white space, as its documentation lists.
#[verifier::external_body]
pub(crate) fn char_is_whitespace(c: char) -> (b: bool)
    ensures
        b == unicode_whitespace(c),
        (c == ' ' || c == '\t' || c == '\n' || c == '\r') ==> b,
{
    c.is_whitespace()
}

/// Whether `c` is alphabetic or numeric in Unicode's terms, as
/// `char::is_alphanumeric` tells.
pub uninterp spec fn unicode_alphanumeric(c: char) -> bool;

/// `char::is_alphanumeric`. ASCII letters and digits are alphanumeric, and
/// ASCII punctuation and white space are not, as the ASCII table shows.
#[verifier::external_body]
pub(crate) fn char_is_alphanumeric(c: char) -> (b: bool)
    ensures
        b == unicode_alphanumeric(c),
        ('a' <= c <= 'z' || 'A' <= c <= 'Z' || '0' <= c <= '9') ==> b,
        ((c as u32) < 128 && !('a' <= c <= 'z' || 'A' <= c <= 'Z' || '0' <= c <= '9')) ==> !b,
{
    c.is_alphanumeric()
}

/// Whether `b` occurs in `a` as a contiguous run.
pub open spec fn seq_contains(a: Seq<char>, b: Seq<char>) -> bool {
    exists|i: int| 0 <= i && i + b.len() <= a.len() && #[trigger] a.subrange(i, i + b.len()) == b
}

/// Whether `needle` occurs in `hay`, as `str::contains` tells.
pub fn str_contains(hay: &str, needle: &str) -> (b: bool)
    ensures
        b == seq_contains(hay@, needle@),
{
    let h = str_chars(hay);
    let n = str_chars(needle);
    if n.len() > h.len() {
        proof {
            if seq_contains(hay@, needle@) {
                let i = choose|i: int| 0 <= i && i + needle@.len() <= hay@.len()
                    && #[trigger] hay@.subrange(i, i + needle@.len()) == needle@;
            }
        }
        return false;
    }
    let mut i: usize = 0;
    while (i as u128) + (n.len() as u128) <= (h.len() as u128)
        invariant
            h@ == hay@,
            n@ == needle@,
            n@.len() <= h@.len(),
            i <= h@.len() - n@.len() + 1,
            forall|k: int| 0 <= k < i ==> #[trigger] hay@.subrange(k, k + needle@.len()) != needle@,
        decreases h@.len() - n@.len() + 1 - i,
    {
        if chars_match_at(&h, i, &n, 0, n.len()) {
            assert(n@.subrange(0, n@.len() as int) =~= n@);
            return true;
        }
        assert(n@.subrange(0, n@.len() as int) =~= n@);
        assert(n@.len() == 0 ==> h@.subrange(i as int, i as int) =~= n@.subrange(0, 0));
        i = i + 1;
    }
    proof {
        if seq_contains(hay@, needle@) {
            let k = choose|k: int| 0 <= k && k + needle@.len() <= hay@.len()
                && #[trigger] hay@.subrange(k, k + needle@.len()) == needle@;
            assert(k < i);
        }
    }
    false
}

/// The uppercase form of a string, as `str::to_uppercase` gives it.
pub uninterp spec fn uppercase(s: Seq<char>) -> Seq<char>;

/// `str::to_uppercase`: the uppercase equivalent of `s` under Unicode's
/// `Uppercase` property.
#[verifier::external_body]
pub(crate) fn to_uppercase(s: &str) -> (r: String)
    ensures
        r@ == uppercase(s@),
{
    s.to_uppercase()
}

/// The first `n` characters of `s`, or all of them when it is shorter.
pub open spec fn take_chars(s: Seq<char>, n: nat) -> Seq<char> {
    if s.len() <= n { s } else { s.subrange(0, n as int) }
}

/// The first `n` characters of `s`.
pub fn prefix_chars(s: &str, n: usize) -> (r: String)
    ensures
        r@ == take_chars(s@, n as nat),
{
    let len = s.unicode_len();
    if len <= n {
        assert(s@.subrange(0, len as int) =~= s@);
        owned(s.substring_char(0, len))
    } else {
        owned(s.substring_char(0, n))
    }
}

} // verus!
