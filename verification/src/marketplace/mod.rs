//! Plugin marketplace: version checks, search, security scanning, licensing.

pub mod api;
pub mod auth;
pub mod instance;
pub mod license;
pub mod package_manager;
pub mod payment;
pub mod quality_scorer;
pub mod recommendation;
pub mod registry;
pub mod review;
pub mod search;
pub mod security_scanner;
pub mod storage;
pub mod types;

use vstd::prelude::*;
use crate::text::str_chars;

verus! {

/// Whether `c` is an ASCII decimal digit.
pub open spec fn is_digit(c: char) -> bool {
    '0' <= c && c <= '9'
}

/// The number written by a sequence of decimal digits.
pub open spec fn digits_value(s: Seq<char>) -> nat
    decreases s.len(),
{
    if s.len() == 0 {
        0
    } else {
        digits_value(s.drop_last()) * 10 + ((s.last() as nat) - ('0' as nat)) as nat
    }
}

/// The digits of a `u32` literal, after an optional leading `+`.
pub open spec fn unsigned_digits(s: Seq<char>) -> Seq<char> {
    if s.len() > 0 && s[0] == '+' {
        s.drop_first()
    } else {
        s
    }
}

/// Whether `str::parse::<u32>` accepts `s`: an optional `+`, then at least
/// one decimal digit, and a value that fits in 32 bits.
pub open spec fn parses_as_u32(s: Seq<char>) -> bool {
    let d = unsigned_digits(s);
    &&& d.len() > 0
    &&& forall|i: int| 0 <= i < d.len() ==> is_digit(#[trigger] d[i])
    &&& digits_value(d) <= u32::MAX
}

/// The pieces of `s` between occurrences of `sep`, as `str::split` yields them.
pub open spec fn split_on(s: Seq<char>, sep: char) -> Seq<Seq<char>>
    decreases s.len(),
{
    if s.len() == 0 {
        seq![Seq::<char>::empty()]
    } else {
        let rest = split_on(s.drop_last(), sep);
        if s.last() == sep {
            rest.push(Seq::<char>::empty())
        } else {
            rest.update(rest.len() - 1, rest.last().push(s.last()))
        }
    }
}

/// A version string is valid when it has exactly three dot-separated parts,
/// each of them a `u32`.
pub open spec fn spec_is_valid_semver(s: Seq<char>) -> bool {
    let parts = split_on(s, '.');
    &&& parts.len() == 3
    &&& forall|i: int| 0 <= i < 3 ==> parses_as_u32(#[trigger] parts[i])
}

proof fn lemma_split_on_nonempty(s: Seq<char>, sep: char)
    ensures
        split_on(s, sep).len() >= 1,
    decreases s.len(),
{
    if s.len() > 0 {
        lemma_split_on_nonempty(s.drop_last(), sep);
    }
}

/// Whether a sequence of characters is a valid `u32` literal.
fn segment_parses(seg: &Vec<char>) -> (ok: bool)
    ensures
        ok == parses_as_u32(seg@),
{
    let start: usize = if seg.len() > 0 && seg[0] == '+' { 1 } else { 0 };
    let ghost d = unsigned_digits(seg@);
    assert(d =~= seg@.subrange(start as int, seg@.len() as int));
    if start >= seg.len() {
        return false;
    }
    let mut value: u64 = 0;
    let mut i: usize = start;
    while i < seg.len()
        invariant
            start <= i <= seg.len(),
            d == seg@.subrange(start as int, seg@.len() as int),
            d == unsigned_digits(seg@),
            forall|k: int| 0 <= k < i - start ==> is_digit(#[trigger] d[k]),
            value == digits_value(d.subrange(0, i - start)),
            value <= u32::MAX,
        decreases seg.len() - i,
    {
        let c = seg[i];
        if !('0' <= c && c <= '9') {
            assert(d[i - start] == c);
            assert(!is_digit(d[i - start]));
            assert(!parses_as_u32(seg@));
            return false;
        }
        let digit = (c as u32 - '0' as u32) as u64;
        assert(d.subrange(0, i + 1 - start).drop_last() =~= d.subrange(0, i - start));
        let next = value * 10 + digit;
        i = i + 1;
        if next > 4294967295 {
            proof {
                if parses_as_u32(seg@) {
                    lemma_digits_value_prefix_bound(d, (i - start) as int);
                }
            }
            return false;
        }
        value = next;
    }
    assert(d.subrange(0, i - start) =~= d);
    true
}

/// The value of a digit string never drops when more digits follow.
proof fn lemma_digits_value_prefix_bound(d: Seq<char>, k: int)
    requires
        0 <= k <= d.len(),
        forall|i: int| 0 <= i < d.len() ==> is_digit(#[trigger] d[i]),
    ensures
        digits_value(d.subrange(0, k)) <= digits_value(d),
    decreases d.len() - k,
{
    if k < d.len() {
        lemma_digits_value_prefix_bound(d, k + 1);
        assert(d.subrange(0, k + 1).drop_last() =~= d.subrange(0, k));
    } else {
        assert(d.subrange(0, k) =~= d);
    }
}

/// Checks that `version` has the form `MAJOR.MINOR.PATCH`, each part a `u32`.
pub fn is_valid_semver(version: &str) -> (valid: bool)
    ensures
        valid == spec_is_valid_semver(version@),
{
    let chars = str_chars(version);
    let mut parts: Vec<Vec<char>> = Vec::new();
    let mut current: Vec<char> = Vec::new();
    let mut i: usize = 0;
    while i < chars.len()
        invariant
            i <= chars.len(),
            parts@.len() + 1 == split_on(chars@.subrange(0, i as int), '.').len(),
            forall|k: int| 0 <= k < parts@.len() ==>
                (#[trigger] parts@[k])@ == split_on(chars@.subrange(0, i as int), '.')[k],
            current@ == split_on(chars@.subrange(0, i as int), '.').last(),
        decreases chars.len() - i,
    {
        let ghost prefix = chars@.subrange(0, i as int);
        let ghost next = chars@.subrange(0, i + 1);
        assert(next.drop_last() =~= prefix);
        proof { lemma_split_on_nonempty(prefix, '.'); }
        let c = chars[i];
        if c == '.' {
            parts.push(current);
            current = Vec::new();
            assert(current@ =~= Seq::<char>::empty());
        } else {
            current.push(c);
        }
        i = i + 1;
    }
    assert(chars@.subrange(0, i as int) =~= version@);
    parts.push(current);
    if parts.len() != 3 {
        return false;
    }
    let ok0 = segment_parses(&parts[0]);
    let ok1 = segment_parses(&parts[1]);
    let ok2 = segment_parses(&parts[2]);
    let ghost sp = split_on(version@, '.');
    assert(parts@[0]@ == sp[0] && parts@[1]@ == sp[1] && parts@[2]@ == sp[2]);
    if ok0 && ok1 && ok2 {
        assert forall|k: int| 0 <= k < 3 implies parses_as_u32(#[trigger] sp[k]) by {
            if k == 0 {} else if k == 1 {} else {}
        }
        true
    } else {
        false
    }
}

} // verus!
