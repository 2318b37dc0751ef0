//! Discovery of build-artifact directories one level under a base directory.
//!
//! The scanner looks only at the immediate children of the base directory,
//! handed to it as [`ChildEntry`] records. A child that is itself a directory
//! named `target` stops the scan: it alone is returned, and every other
//! candidate — found before or after it — is discarded. Otherwise each child
//! directory that holds a `target` subdirectory contributes that
//! subdirectory's path, in the children's order.

use vstd::prelude::*;
use vstd::string::StringExecFns;

verus! {

/// What the scanner reads of one immediate child of the base directory.
pub struct ChildEntry {
    /// Absolute path of the child itself.
    pub path: String,
    /// Final path component of the child.
    pub name: String,
    /// Whether the child is a directory.
    pub is_dir: bool,
    /// Whether a directory named `target` exists directly inside the child.
    pub has_target_subdir: bool,
}

/// The fixed directory name that marks a build-artifact directory.
pub open spec fn target_name() -> Seq<char> {
    "target"@
}

/// The views of a list of path strings.
pub open spec fn paths_view(v: Seq<String>) -> Seq<Seq<char>> {
    v.map_values(|p: String| p@)
}

/// The child is itself a directory carrying the target name; scanning stops
/// at it.
pub open spec fn is_target_child(e: ChildEntry) -> bool {
    e.is_dir && e.name@ == target_name()
}

/// The child is a directory, not itself target-named, holding a target-named
/// subdirectory: that subdirectory is a candidate.
pub open spec fn is_candidate_parent(e: ChildEntry) -> bool {
    e.is_dir && e.name@ != target_name() && e.has_target_subdir
}

/// The candidate path inside a child: the child's path with the target name
/// appended.
pub open spec fn candidate_path(e: ChildEntry) -> Seq<char> {
    e.path@ + "/target"@
}

/// Whether some child would stop the scan.
pub open spec fn has_target_child(s: Seq<ChildEntry>) -> bool {
    exists|i: int| 0 <= i < s.len() && is_target_child(s[i])
}

/// The result of a scan that never stops early: one path per child that
/// holds a target-named subdirectory, in the children's order.
pub open spec fn candidate_paths(s: Seq<ChildEntry>) -> Seq<Seq<char>>
    decreases s,
{
    if s.len() == 0 {
        Seq::empty()
    } else if is_candidate_parent(s[0]) {
        seq![candidate_path(s[0])] + candidate_paths(s.drop_first())
    } else {
        candidate_paths(s.drop_first())
    }
}

/// What scanning the children `s` returns: the first target-named child
/// alone, if there is one, and the candidate paths otherwise.
pub open spec fn scan_result(s: Seq<ChildEntry>) -> Seq<Seq<char>>
    decreases s,
{
    if s.len() == 0 {
        Seq::empty()
    } else if is_target_child(s[0]) {
        seq![s[0].path@]
    } else if has_target_child(s.drop_first()) {
        scan_result(s.drop_first())
    } else if is_candidate_parent(s[0]) {
        seq![candidate_path(s[0])] + scan_result(s.drop_first())
    } else {
        scan_result(s.drop_first())
    }
}

/// Appending one child extends the candidate paths by at most that child's
/// candidate.
proof fn lemma_candidate_paths_push(s: Seq<ChildEntry>, e: ChildEntry)
    ensures
        candidate_paths(s.push(e)) == candidate_paths(s) + (if is_candidate_parent(e) {
            seq![candidate_path(e)]
        } else {
            Seq::<Seq<char>>::empty()
        }),
    decreases s,
{
    let tail = if is_candidate_parent(e) {
        seq![candidate_path(e)]
    } else {
        Seq::<Seq<char>>::empty()
    };
    if s.len() == 0 {
        assert(s.push(e).len() == 1);
        assert(s.push(e)[0] == e);
        assert(s.push(e).drop_first() =~= Seq::<ChildEntry>::empty());
        assert(candidate_paths(s.push(e).drop_first()) == Seq::<Seq<char>>::empty());
        if is_candidate_parent(e) {
            assert(candidate_paths(s.push(e)) == seq![candidate_path(e)]
                + candidate_paths(s.push(e).drop_first()));
            assert(candidate_paths(s.push(e)) =~= candidate_paths(s) + tail);
        } else {
            assert(candidate_paths(s.push(e)) == candidate_paths(s.push(e).drop_first()));
            assert(candidate_paths(s.push(e)) =~= candidate_paths(s) + tail);
        }
    } else {
        lemma_candidate_paths_push(s.drop_first(), e);
        assert(s.push(e).drop_first() =~= s.drop_first().push(e));
        assert(s.push(e)[0] == s[0]);
        assert(candidate_paths(s.push(e)) =~= candidate_paths(s) + tail);
    }
}

/// Short-circuit law: if the child at position `i` is a target-named
/// directory and no earlier child is, the scan returns exactly that child's
/// path and nothing else, however many candidates its siblings hold.
pub proof fn lemma_scan_short_circuit(s: Seq<ChildEntry>, i: int)
    requires
        0 <= i < s.len(),
        is_target_child(s[i]),
        forall|j: int| 0 <= j < i ==> !is_target_child(s[j]),
    ensures
        scan_result(s) == seq![s[i].path@],
    decreases i,
{
    if i == 0 {
    } else {
        assert(!is_target_child(s[0]));
        assert(is_target_child(s.drop_first()[i - 1]));
        assert(has_target_child(s.drop_first()));
        assert(forall|j: int| 0 <= j < i - 1 ==> s.drop_first()[j] == s[j + 1]
            && !is_target_child(s[j + 1]));
        lemma_scan_short_circuit(s.drop_first(), i - 1);
        assert(s.drop_first()[i - 1] == s[i]);
    }
}

/// Without a target-named child the scan returns one path per child that
/// holds a target-named subdirectory, in the children's order.
pub proof fn lemma_scan_no_short_circuit(s: Seq<ChildEntry>)
    requires
        !has_target_child(s),
    ensures
        scan_result(s) == candidate_paths(s),
    decreases s,
{
    if s.len() == 0 {
    } else {
        assert(!is_target_child(s[0]));
        assert(!has_target_child(s.drop_first())) by {
            if has_target_child(s.drop_first()) {
                let j = choose|j: int|
                    0 <= j < s.drop_first().len() && is_target_child(s.drop_first()[j]);
                assert(is_target_child(s[j + 1]));
            }
        }
        lemma_scan_no_short_circuit(s.drop_first());
    }
}

/// Scanning an empty base directory yields an empty result, not an error.
pub proof fn lemma_scan_empty()
    ensures
        scan_result(Seq::<ChildEntry>::empty()) == Seq::<Seq<char>>::empty(),
{
}

/// Scans the immediate children of a base directory. If some child is itself
/// a directory named `target`, the first such child's own path is the only
/// result; otherwise the result holds, in order, the `target` subdirectory
/// path of every child directory that has one.
pub fn find_target_dirs(entries: &Vec<ChildEntry>) -> (r: Vec<String>)
    ensures
        paths_view(r@) == scan_result(entries@),
{
    let ghost s = entries@;
    let mut result: Vec<String> = Vec::new();
    let mut i: usize = 0;
    let target: String = "target".to_owned();
    while i < entries.len()
        invariant
            i <= s.len(),
            entries@ == s,
            target@ == target_name(),
            forall|j: int| 0 <= j < i ==> !is_target_child(s[j]),
            paths_view(result@) == candidate_paths(s.take(i as int)),
        decreases s.len() - i,
    {
        let e = &entries[i];
        if e.is_dir {
            if e.name == target {
                let mut single: Vec<String> = Vec::new();
                single.push(e.path.clone());
                proof {
                    lemma_scan_short_circuit(s, i as int);
                    assert(paths_view(single@) =~= seq![s[i as int].path@]);
                }
                return single;
            }
            if e.has_target_subdir {
                let cand = e.path.clone().concat("/target");
                result.push(cand);
            }
        }
        proof {
            lemma_candidate_paths_push(s.take(i as int), s[i as int]);
            assert(s.take(i + 1) =~= s.take(i as int).push(s[i as int]));
            assert(paths_view(result@) =~= candidate_paths(s.take(i + 1)));
        }
        i = i + 1;
    }
    proof {
        assert(s.take(s.len() as int) =~= s);
        lemma_scan_no_short_circuit(s);
    }
    result
}

} // verus!
