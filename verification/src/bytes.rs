//! Searches and comparisons over byte slices.

use vstd::prelude::*;

verus! {

/// The least index in `from..to` that satisfies `p`.
pub open spec fn first_where(p: spec_fn(int) -> bool, from: int, to: int) -> Option<int>
    decreases to - from,
{
    if from >= to {
        None
    } else if p(from) {
        Some(from)
    } else {
        first_where(p, from + 1, to)
    }
}

/// An index that satisfies `p`, with none before it, is what `first_where` finds.
pub proof fn first_where_is(p: spec_fn(int) -> bool, from: int, to: int, at: int)
    requires
        from <= at < to,
        p(at),
        forall|j: int| from <= j < at ==> !#[trigger] p(j),
    ensures
        first_where(p, from, to) == Some(at),
    decreases at - from,
{
    if from < at {
        assert(!p(from));
        first_where_is(p, from + 1, to, at);
    }
}

/// Where nothing satisfies `p`, `first_where` finds nothing.
pub proof fn first_where_none(p: spec_fn(int) -> bool, from: int, to: int)
    requires
        forall|j: int| from <= j < to ==> !#[trigger] p(j),
    ensures
        first_where(p, from, to) is None,
    decreases to - from,
{
    if from < to {
        assert(!p(from));
        first_where_none(p, from + 1, to);
    }
}

/// What `first_where` returns satisfies `p` and has nothing before it; when it
/// returns nothing, nothing satisfies `p`.
pub proof fn first_where_props(p: spec_fn(int) -> bool, from: int, to: int)
    ensures
        match first_where(p, from, to) {
            Some(at) => from <= at < to && p(at) && forall|j: int|
                from <= j < at ==> !#[trigger] p(j),
            None => forall|j: int| from <= j < to ==> !#[trigger] p(j),
        },
    decreases to - from,
{
    if from < to && !p(from) {
        first_where_props(p, from + 1, to);
    }
}

/// Whether two slices hold the same bytes.
pub fn same_bytes(a: &[u8], b: &[u8]) -> (same: bool)
    ensures
        same == (a@ == b@),
{
    if a.len() != b.len() {
        return false;
    }
    let mut i: usize = 0;
    while i < a.len()
        invariant
            i <= a.len(),
            a.len() == b.len(),
            forall|j: int| 0 <= j < i ==> a@[j] == b@[j],
        decreases a.len() - i,
    {
        if a[i] != b[i] {
            return false;
        }
        i += 1;
    }
    assert(a@ =~= b@);
    true
}

/// Whether `bytes` begins with `prefix`.
pub fn starts_with(bytes: &[u8], prefix: &[u8]) -> (r: bool)
    ensures
        r == prefix@.is_prefix_of(bytes@),
{
    if bytes.len() < prefix.len() {
        return false;
    }
    let mut i: usize = 0;
    while i < prefix.len()
        invariant
            i <= prefix.len() <= bytes.len(),
            forall|j: int| 0 <= j < i ==> bytes@[j] == prefix@[j],
        decreases prefix.len() - i,
    {
        if bytes[i] != prefix[i] {
            assert(bytes@.subrange(0, prefix@.len() as int)[i as int] == bytes@[i as int]);
            return false;
        }
        i += 1;
    }
    assert(prefix@ =~= bytes@.subrange(0, prefix@.len() as int));
    true
}

} // verus!
