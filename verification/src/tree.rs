//! Size accounting over a directory tree.
//!
//! A directory tree, as observed at one moment, is modelled by [`FsTree`]: a
//! regular file carries its byte length, a directory carries the trees of its
//! entries. [`total_bytes`] is the mathematical size of such a tree — the sum
//! of the byte lengths of all regular files reachable by recursive descent —
//! and [`calculate_dir_size`] computes it.

use vstd::prelude::*;

verus! {

/// One node of a directory tree: a regular file with its byte length, or a
/// directory with the trees of its immediate entries.
pub enum FsTree {
    File(u64),
    Dir(Vec<FsTree>),
}

/// The sum of the byte lengths of all regular files reachable from `t`.
pub open spec fn total_bytes(t: FsTree) -> nat
    decreases t,
{
    match t {
        FsTree::File(len) => len as nat,
        FsTree::Dir(entries) => total_bytes_seq(entries@),
    }
}

/// The sum of the sizes of a sequence of sibling trees.
pub open spec fn total_bytes_seq(s: Seq<FsTree>) -> nat
    decreases s,
{
    if s.len() == 0 {
        0
    } else {
        total_bytes(s[0]) + total_bytes_seq(s.drop_first())
    }
}

/// Splitting a sequence of siblings at any element splits its total size.
proof fn lemma_total_bytes_decompose(s: Seq<FsTree>, i: int)
    requires
        0 <= i < s.len(),
    ensures
        total_bytes_seq(s) == total_bytes_seq(s.take(i)) + total_bytes(s[i]) + total_bytes_seq(
            s.skip(i + 1),
        ),
    decreases i,
{
    if i == 0 {
        assert(s.take(0) =~= Seq::<FsTree>::empty());
        assert(s.skip(1) =~= s.drop_first());
    } else {
        lemma_total_bytes_decompose(s.drop_first(), i - 1);
        assert(s.drop_first().take(i - 1) =~= s.take(i).drop_first());
        assert(s.drop_first().skip(i) =~= s.skip(i + 1));
        assert(s.drop_first()[i - 1] == s[i]);
        assert(s.take(i)[0] == s[0]);
        assert(s.take(i).len() == i);
    }
}

/// Tree size is additive over disjoint subtrees: a directory whose entries
/// are split anywhere has the sum of the two parts' sizes.
pub proof fn lemma_size_additive(a: Seq<FsTree>, b: Seq<FsTree>)
    ensures
        total_bytes_seq(a + b) == total_bytes_seq(a) + total_bytes_seq(b),
    decreases a,
{
    if a.len() == 0 {
        assert(a + b =~= b);
    } else {
        lemma_size_additive(a.drop_first(), b);
        assert((a + b).drop_first() =~= a.drop_first() + b);
        assert((a + b)[0] == a[0]);
    }
}

/// An empty directory has size zero.
pub proof fn lemma_empty_dir_size(t: FsTree)
    requires
        t matches FsTree::Dir(entries) && entries@.len() == 0,
    ensures
        total_bytes(t) == 0,
{
}

/// Computes the total size in bytes of all regular files reachable from `t`,
/// or `None` when that total does not fit in `u64`.
pub fn calculate_dir_size(t: &FsTree) -> (r: Option<u64>)
    ensures
        r is Some <==> total_bytes(*t) <= u64::MAX,
        r matches Some(n) ==> n == total_bytes(*t),
    decreases *t,
{
    match t {
        FsTree::File(len) => Some(*len),
        FsTree::Dir(entries) => {
            let ghost s = entries@;
            let mut total: u64 = 0;
            let mut i: usize = 0;
            while i < entries.len()
                invariant
                    i <= s.len(),
                    entries@ == s,
                    *t == FsTree::Dir(*entries),
                    total == total_bytes_seq(s.take(i as int)),
                    total_bytes(*t) == total_bytes_seq(s),
                decreases s.len() - i,
            {
                proof {
                    lemma_total_bytes_decompose(s, i as int);
                    assert(decreases_to!(*t => *entries));
                    assert(decreases_to!(*entries => entries@));
                    assert(decreases_to!(entries@ => entries@[i as int]));
                }
                let sub = calculate_dir_size(&entries[i]);
                match sub {
                    None => {
                        proof {
                            assert(total_bytes(s[i as int]) > u64::MAX);
                            assert(total_bytes_seq(s) >= total_bytes(s[i as int]));
                        }
                        return None;
                    },
                    Some(n) => {
                        match total.checked_add(n) {
                            None => {
                                return None;
                            },
                            Some(x) => {
                                total = x;
                            },
                        }
                    },
                }
                proof {
                    assert(s.take(i + 1).take(i as int) =~= s.take(i as int));
                    assert(s.take(i + 1).skip(i + 1) =~= Seq::<FsTree>::empty());
                    lemma_total_bytes_decompose(s.take(i + 1), i as int);
                }
                i = i + 1;
            }
            proof {
                assert(s.take(s.len() as int) =~= s);
            }
            Some(total)
        },
    }
}

} // verus!
