//! Ascending order of a series of durations, as the statistics need it.
use vstd::prelude::*;
use vstd::relations::*;
use vstd::seq_lib::*;
use vstd::multiset::*;

verus! {

broadcast use vstd::seq_lib::group_to_multiset_ensures;

/// The order samples are ranked in.
pub open spec fn at_most(a: u64, b: u64) -> bool {
    a <= b
}

/// The order samples are ranked in, as a relation.
pub open spec fn at_most_rel() -> spec_fn(u64, u64) -> bool {
    |a: u64, b: u64| at_most(a, b)
}

/// The samples in ascending order: the one sorted rearrangement of them.
pub open spec fn ascending(samples: Seq<u64>) -> Seq<u64> {
    samples.sort_by(at_most_rel())
}

/// Whether a series is in ascending order.
pub open spec fn is_ascending(s: Seq<u64>) -> bool {
    forall|i: int, j: int| 0 <= i < j < s.len() ==> s[i] <= s[j]
}

proof fn lemma_at_most_total()
    ensures
        total_ordering(at_most_rel()),
{
}

/// What `ascending` is: sorted, and the same samples.
pub proof fn lemma_ascending(samples: Seq<u64>)
    ensures
        is_ascending(ascending(samples)),
        ascending(samples).to_multiset() == samples.to_multiset(),
        ascending(samples).len() == samples.len(),
{
    assert(ascending(samples).to_multiset().len() == ascending(samples).len());
    lemma_at_most_total();
    samples.lemma_sort_by_ensures(at_most_rel());
    let t = ascending(samples);
    assert forall|i: int, j: int| 0 <= i < j < t.len() implies t[i] <= t[j] by {
        assert(at_most_rel()(t[i], t[j]));
    }
}

/// Two ascending series with the same samples are the same series.
pub proof fn lemma_ascending_unique(a: Seq<u64>, b: Seq<u64>)
    requires
        is_ascending(a),
        is_ascending(b),
        a.to_multiset() == b.to_multiset(),
    ensures
        a == b,
    decreases a.len(),
{
    assert(a.to_multiset().len() == a.len());
    assert(b.to_multiset().len() == b.len());
    if a.len() == 0 {
        assert(b.len() == 0);
        assert(a =~= b);
    } else {
        assert(b.len() == a.len());
        assert(a.to_multiset().count(a[0]) > 0);
        assert(b.contains(a[0]));
        let j = choose|j: int| 0 <= j < b.len() && b[j] == a[0];
        assert(b[0] <= a[0]);
        assert(a.to_multiset().count(b[0]) > 0);
        assert(a.contains(b[0]));
        let k = choose|k: int| 0 <= k < a.len() && a[k] == b[0];
        assert(a[0] <= b[0]);
        assert(a.remove(0) =~= a.drop_first());
        assert(b.remove(0) =~= b.drop_first());
        assert(a.drop_first().to_multiset() =~= b.drop_first().to_multiset());
        lemma_ascending_unique(a.drop_first(), b.drop_first());
        assert(a[0] == b[0]);
        assert forall|i: int| 0 <= i < a.len() implies a[i] == b[i] by {
            if i > 0 {
                assert(a[i] == a.drop_first()[i - 1]);
                assert(b[i] == b.drop_first()[i - 1]);
            }
        }
        assert(a =~= b);
    }
}

/// Inserting an element adds it to the multiset.
proof fn lemma_insert_multiset(s: Seq<u64>, pos: int, x: u64)
    requires
        0 <= pos <= s.len(),
    ensures
        s.insert(pos, x).to_multiset() == s.to_multiset().insert(x),
{
    let t = s.insert(pos, x);
    assert(t.remove(pos) =~= s);
    assert(t[pos] == x);
    assert(t.to_multiset().count(x) > 0);
    assert(t.to_multiset() =~= s.to_multiset().insert(x));
}

/// The samples, sorted in ascending order.
pub fn sorted_copy(samples: &[u64]) -> (sorted: Vec<u64>)
    ensures
        sorted@ == ascending(samples@),
{
    let mut sorted: Vec<u64> = Vec::new();
    let mut i: usize = 0;
    while i < samples.len()
        invariant
            i <= samples.len(),
            is_ascending(sorted@),
            sorted@.to_multiset() == samples@.subrange(0, i as int).to_multiset(),
        decreases samples.len() - i,
    {
        let x = samples[i];
        let mut pos: usize = 0;
        while pos < sorted.len() && sorted[pos] <= x
            invariant
                pos <= sorted.len(),
                forall|k: int| 0 <= k < pos ==> sorted@[k] <= x,
            decreases sorted.len() - pos,
        {
            pos = pos + 1;
        }
        let ghost before = sorted@;
        proof {
            lemma_insert_multiset(before, pos as int, x);
        }
        sorted.insert(pos, x);
        assert(samples@.subrange(0, i + 1) =~= samples@.subrange(0, i as int).push(x));
        assert forall|a: int, b: int| 0 <= a < b < sorted@.len() implies sorted@[a] <= sorted@[b] by {
            if b < pos {
            } else if b == pos {
            } else if a < pos {
                assert(before[a] <= x);
                assert(x < before[pos as int] || pos == before.len() || true);
            } else {
            }
        }
        i = i + 1;
    }
    assert(samples@.subrange(0, samples@.len() as int) =~= samples@);
    proof {
        lemma_ascending(samples@);
        lemma_ascending_unique(sorted@, ascending(samples@));
    }
    sorted
}

} // verus!
