//! The sized candidate list: sorting it by size and totalling it.
//!
//! After the scan, each discovered directory is measured and becomes a
//! [`TargetDirInfo`]. The list is then sorted largest-first for the report
//! and for deletion, and the report ends with the total of all sizes.

use vstd::prelude::*;
use vstd::seq_lib::group_to_multiset_ensures;

verus! {

/// One discovered build-artifact directory and its measured size.
pub struct TargetDirInfo {
    /// Absolute path of the directory.
    pub path: String,
    /// Total bytes of the regular files under `path` when it was measured.
    pub size: u64,
}

/// The sum of the candidates' sizes.
pub open spec fn spec_total_size(s: Seq<TargetDirInfo>) -> nat
    decreases s,
{
    if s.len() == 0 {
        0
    } else {
        s[0].size as nat + spec_total_size(s.drop_first())
    }
}

/// The sizes are in non-increasing order.
pub open spec fn sorted_by_size_desc(s: Seq<TargetDirInfo>) -> bool {
    forall|i: int, j: int| 0 <= i <= j < s.len() ==> s[i].size >= s[j].size
}

/// Splitting the candidate list at any element splits its total.
proof fn lemma_total_size_decompose(s: Seq<TargetDirInfo>, i: int)
    requires
        0 <= i < s.len(),
    ensures
        spec_total_size(s) == spec_total_size(s.take(i)) + s[i].size + spec_total_size(
            s.skip(i + 1),
        ),
    decreases i,
{
    if i == 0 {
        assert(s.take(0) =~= Seq::<TargetDirInfo>::empty());
        assert(s.skip(1) =~= s.drop_first());
    } else {
        lemma_total_size_decompose(s.drop_first(), i - 1);
        assert(s.drop_first().take(i - 1) =~= s.take(i).drop_first());
        assert(s.drop_first().skip(i) =~= s.skip(i + 1));
        assert(s.drop_first()[i - 1] == s[i]);
        assert(s.take(i)[0] == s[0]);
        assert(s.take(i).len() == i);
    }
}

/// Adds up the candidates' sizes, or `None` when the total does not fit in
/// `u64`.
pub fn total_size(infos: &Vec<TargetDirInfo>) -> (r: Option<u64>)
    ensures
        r is Some <==> spec_total_size(infos@) <= u64::MAX,
        r matches Some(n) ==> n == spec_total_size(infos@),
{
    let ghost s = infos@;
    let mut total: u64 = 0;
    let mut i: usize = 0;
    while i < infos.len()
        invariant
            i <= s.len(),
            infos@ == s,
            total == spec_total_size(s.take(i as int)),
        decreases s.len() - i,
    {
        proof {
            lemma_total_size_decompose(s, i as int);
        }
        match total.checked_add(infos[i].size) {
            None => {
                return None;
            },
            Some(x) => {
                total = x;
            },
        }
        proof {
            assert(s.take(i + 1).take(i as int) =~= s.take(i as int));
            assert(s.take(i + 1).skip(i + 1) =~= Seq::<TargetDirInfo>::empty());
            lemma_total_size_decompose(s.take(i + 1), i as int);
        }
        i = i + 1;
    }
    proof {
        assert(s.take(s.len() as int) =~= s);
    }
    Some(total)
}

/// Sorts the candidates by size, largest first. The result is a permutation
/// of the input: no candidate appears or disappears.
pub fn sort_by_size_desc(infos: &mut Vec<TargetDirInfo>)
    ensures
        sorted_by_size_desc(final(infos)@),
        final(infos)@.to_multiset() == old(infos)@.to_multiset(),
        final(infos)@.len() == old(infos)@.len(),
{
    broadcast use group_to_multiset_ensures;

    let ghost orig = old(infos)@;
    if infos.len() == 0 {
        return ;
    }
    let mut i: usize = 1;
    while i < infos.len()
        invariant
            1 <= i <= infos@.len(),
            infos@.len() == orig.len(),
            infos@.to_multiset() == orig.to_multiset(),
            sorted_by_size_desc(infos@.take(i as int)),
        decreases infos@.len() - i,
    {
        broadcast use group_to_multiset_ensures;

        let ghost v0 = infos@;
        let item = infos.remove(i);
        let ghost v1 = infos@;
        proof {
            v0.remove_ensures(i as int);
            assert(v1 =~= v0.remove(i as int));
        }
        let mut p: usize = 0;
        while p < i && infos[p].size >= item.size
            invariant
                p <= i,
                i < v0.len(),
                infos@ == v1,
                v1 == v0.remove(i as int),
                item == v0[i as int],
                forall|q: int| 0 <= q < i ==> v1[q] == v0[q],
                forall|q: int| 0 <= q < p ==> v0[q].size >= item.size,
            decreases i - p,
        {
            p = p + 1;
        }
        infos.insert(p, item);
        proof {
            let vi = v1.insert(p as int, item);
            v1.insert_ensures(p as int, item);
            assert(infos@ == vi);
            assert(vi.to_multiset() =~= v0.to_multiset()) by {
                assert(v1.to_multiset() == v0.to_multiset().remove(v0[i as int]));
                assert(vi.to_multiset() == v1.to_multiset().insert(item));
                assert(v0.to_multiset().contains(v0[i as int]));
            }
            assert(vi.to_multiset() == orig.to_multiset());
            assert forall|a: int, b: int| 0 <= a <= b <= i implies vi[a].size >= vi[b].size by {
                if b < p {
                    assert(vi[a] == v0[a] && vi[b] == v0[b]);
                } else if b == p {
                    if a < p {
                        assert(vi[a] == v0[a]);
                        assert(v0[a].size >= item.size);
                    }
                } else {
                    assert(vi[b] == v1[b - 1]);
                    assert(v1[b - 1] == v0[b - 1]);
                    assert(p < i);
                    assert(v0[p as int].size < item.size);
                    assert(v0[p as int].size >= v0[b - 1].size);
                    if a < p {
                        assert(vi[a] == v0[a]);
                        assert(v0[a].size >= v0[b - 1].size);
                    } else if a == p {
                        assert(vi[a] == item);
                    } else {
                        assert(vi[a] == v0[a - 1]);
                        assert(v0[a - 1].size >= v0[b - 1].size);
                    }
                }
            }
            assert forall|a: int, b: int|
                #![trigger infos@.take(i + 1)[a], infos@.take(i + 1)[b]]
                0 <= a <= b < infos@.take(i + 1).len() implies infos@.take(i + 1)[a].size
                >= infos@.take(i + 1)[b].size by {
                assert(infos@.take(i + 1)[a] == vi[a]);
                assert(infos@.take(i + 1)[b] == vi[b]);
            }
            assert(sorted_by_size_desc(infos@.take(i + 1)));
        }
        i = i + 1;
    }
    proof {
        assert(infos@.take(infos@.len() as int) =~= infos@);
    }
}

} // verus!
