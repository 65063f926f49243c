//! Small verified helpers on byte strings.

use vstd::prelude::*;

verus! {

/// Whether `bytes` starts with `prefix`.
pub open spec fn has_prefix(bytes: Seq<u8>, prefix: Seq<u8>) -> bool {
    prefix.len() <= bytes.len() && bytes.subrange(0, prefix.len() as int) == prefix
}

/// The bytes of `bytes` after its first `n`; none where it has no more
/// than `n`.
pub open spec fn after(bytes: Seq<u8>, n: nat) -> Seq<u8> {
    if n <= bytes.len() {
        bytes.subrange(n as int, bytes.len() as int)
    } else {
        Seq::empty()
    }
}

/// Whether `pattern` stands in `bytes` at `at`.
pub open spec fn stands_at(bytes: Seq<u8>, at: nat, pattern: Seq<u8>) -> bool {
    at + pattern.len() <= bytes.len() && bytes.subrange(at as int, at as int + pattern.len() as int)
        == pattern
}

/// Whether `pattern` stands in `bytes` at `at`.
pub fn equals_at(bytes: &[u8], at: usize, pattern: &[u8]) -> (same: bool)
    ensures
        same == stands_at(bytes@, at as nat, pattern@),
{
    let total = bytes.len();
    if at > total || pattern.len() > total - at {
        return false;
    }
    let ghost part = bytes@.subrange(at as int, at + pattern@.len());
    let mut i: usize = 0;
    while i < pattern.len()
        invariant
            at + pattern@.len() <= bytes@.len() == total,
            i <= pattern@.len(),
            part == bytes@.subrange(at as int, at + pattern@.len()),
            part.subrange(0, i as int) =~= pattern@.subrange(0, i as int),
        decreases pattern@.len() - i,
    {
        if bytes[at + i] != pattern[i] {
            assert(part[i as int] != pattern@[i as int]);
            return false;
        }
        assert(part.subrange(0, i + 1) =~= part.subrange(0, i as int).push(part[i as int]));
        assert(pattern@.subrange(0, i + 1) =~= pattern@.subrange(0, i as int).push(
            pattern@[i as int],
        ));
        i = i + 1;
    }
    assert(part.subrange(0, i as int) =~= part);
    assert(pattern@.subrange(0, i as int) =~= pattern@);
    true
}

/// Whether `bytes` starts with `prefix`.
pub fn starts_with(bytes: &[u8], prefix: &[u8]) -> (yes: bool)
    ensures
        yes == has_prefix(bytes@, prefix@),
{
    equals_at(bytes, 0, prefix)
}

/// Whether two byte strings are equal.
pub fn bytes_equal(a: &[u8], b: &[u8]) -> (same: bool)
    ensures
        same == (a@ == b@),
{
    if a.len() != b.len() {
        return false;
    }
    let same = equals_at(a, 0, b);
    assert(a@.subrange(0, a@.len() as int) =~= a@);
    same
}

/// The bytes from `from` up to `to`; none where the range is empty or
/// reaches past the end.
pub fn copy_range(bytes: &[u8], from: usize, to: usize) -> (part: Vec<u8>)
    ensures
        part@ == if from <= to <= bytes@.len() {
            bytes@.subrange(from as int, to as int)
        } else {
            Seq::empty()
        },
{
    let mut part: Vec<u8> = Vec::new();
    if from > to || to > bytes.len() {
        return part;
    }
    let mut i: usize = from;
    while i < to
        invariant
            from <= i <= to <= bytes@.len(),
            part@ =~= bytes@.subrange(from as int, i as int),
        decreases to - i,
    {
        part.push(bytes[i]);
        i = i + 1;
    }
    part
}

/// The bytes of `bytes` after its first `n`; none where it has no more
/// than `n`.
pub fn bytes_after(bytes: &[u8], n: usize) -> (rest: Vec<u8>)
    ensures
        rest@ == after(bytes@, n as nat),
{
    copy_range(bytes, n, bytes.len())
}

/// Appends the bytes of `more` to `bytes`.
pub fn extend(bytes: &mut Vec<u8>, more: &[u8])
    ensures
        final(bytes)@ == old(bytes)@ + more@,
{
    let mut i: usize = 0;
    while i < more.len()
        invariant
            i <= more@.len(),
            bytes@ =~= old(bytes)@ + more@.subrange(0, i as int),
        decreases more@.len() - i,
    {
        bytes.push(more[i]);
        i = i + 1;
    }
    assert(more@.subrange(0, i as int) =~= more@);
}

} // verus!
