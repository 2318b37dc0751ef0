//! The deletion coordinator.
//!
//! A deletion run is a little state machine, [`DeletionSession`]. It is set up
//! with a plan — which candidate indices to remove, in which order — and is
//! then driven step by step: [`DeletionSession::next_target`] names the next
//! directory to remove, [`DeletionSession::record_result`] is told whether
//! that removal succeeded. A failed removal stops the whole run at once:
//! directories removed so far stay removed, later ones are never touched, and
//! the run reports failure. The caller performs the removals and the terminal
//! prompt; every decision is made here.

use vstd::prelude::*;

verus! {

/// How a deletion run was set up.
#[derive(Debug, PartialEq, Eq, Clone, Copy)]
pub enum SessionKind {
    /// Forced mode: every candidate is planned.
    Forced,
    /// Interactive mode without an interactive terminal: nothing is planned.
    NonInteractive,
    /// Interactive mode with a confirmed selection.
    Selected,
}

/// What a finished deletion run reports.
#[derive(Debug, PartialEq, Eq, Clone, Copy)]
pub enum DeletionOutcome {
    /// Every planned removal succeeded.
    Completed,
    /// There was no interactive terminal, so nothing was attempted; this is
    /// success, not an error.
    NonInteractive,
    /// The user selected nothing, so nothing was attempted; success.
    NothingSelected,
    /// A removal failed and the run stopped there.
    Aborted,
}

/// A finished run is a success exactly when no removal failed.
pub open spec fn outcome_is_success(o: DeletionOutcome) -> bool {
    o != DeletionOutcome::Aborted
}

/// The state of one deletion run over a list of candidates.
pub struct DeletionSession {
    /// Candidate indices to remove, in removal order.
    pub plan: Vec<usize>,
    /// How many removals have been attempted so far.
    pub attempted: usize,
    /// Whether the last attempted removal failed.
    pub aborted: bool,
    /// How the run was set up.
    pub kind: SessionKind,
}

/// One transition of a run: the attempted removal succeeded or failed.
pub open spec fn step(s: DeletionSession, success: bool) -> DeletionSession {
    DeletionSession { attempted: (s.attempted + 1) as usize, aborted: !success, ..s }
}

/// A whole run: `step` folded over the outcomes of the attempted removals.
pub open spec fn run(s: DeletionSession, results: Seq<bool>) -> DeletionSession
    decreases results.len(),
{
    if results.len() == 0 {
        s
    } else {
        run(step(s, results[0]), results.drop_first())
    }
}

impl DeletionSession {
    /// The bookkeeping is consistent.
    pub open spec fn wf(self) -> bool {
        &&& self.attempted <= self.plan@.len()
        &&& (self.aborted ==> self.attempted >= 1)
    }

    /// The plan entries whose directories have been removed: every attempt
    /// but a final failed one succeeded.
    pub open spec fn deleted(self) -> Seq<usize> {
        if self.aborted {
            self.plan@.take(self.attempted - 1)
        } else {
            self.plan@.take(self.attempted as int)
        }
    }

    /// The next candidate index to remove, if the run still goes on.
    pub open spec fn next_target_spec(self) -> Option<usize> {
        if !self.aborted && self.attempted < self.plan@.len() {
            Some(self.plan@[self.attempted as int])
        } else {
            None
        }
    }

    /// Whether the run is over.
    pub open spec fn finished(self) -> bool {
        self.aborted || self.attempted == self.plan@.len()
    }

    /// What a finished run reports.
    pub open spec fn outcome_spec(self) -> DeletionOutcome {
        if self.aborted {
            DeletionOutcome::Aborted
        } else if self.kind == SessionKind::NonInteractive {
            DeletionOutcome::NonInteractive
        } else if self.kind == SessionKind::Selected && self.plan@.len() == 0 {
            DeletionOutcome::NothingSelected
        } else {
            DeletionOutcome::Completed
        }
    }

    /// Plans a forced run: every one of the `n` candidates, in list order.
    pub fn new_forced(n: usize) -> (s: Self)
        ensures
            s.wf(),
            s.kind == SessionKind::Forced,
            s.attempted == 0,
            !s.aborted,
            s.plan@.len() == n,
            forall|i: int| 0 <= i < n ==> s.plan@[i] == i,
    {
        let mut plan: Vec<usize> = Vec::new();
        let mut i: usize = 0;
        while i < n
            invariant
                i <= n,
                plan@.len() == i,
                forall|j: int| 0 <= j < i ==> plan@[j] == j,
            decreases n - i,
        {
            plan.push(i);
            i = i + 1;
        }
        DeletionSession { plan, attempted: 0, aborted: false, kind: SessionKind::Forced }
    }

    /// Plans an interactive run over `n` candidates. Without an interactive
    /// terminal nothing may be removed, so the plan is empty and the finished
    /// run reports success. Otherwise the plan is exactly the user's
    /// selection, in the candidate list's order.
    pub fn new_interactive(terminal: bool, selections: Vec<usize>, n: usize) -> (s: Self)
        requires
            terminal ==> forall|i: int| 0 <= i < selections@.len() ==> selections@[i] < n,
            terminal ==> forall|i: int, j: int|
                0 <= i < j < selections@.len() ==> selections@[i] < selections@[j],
        ensures
            s.wf(),
            s.attempted == 0,
            !s.aborted,
            !terminal ==> s.kind == SessionKind::NonInteractive && s.plan@.len() == 0,
            terminal ==> s.kind == SessionKind::Selected && s.plan@ == selections@,
    {
        if !terminal {
            DeletionSession {
                plan: Vec::new(),
                attempted: 0,
                aborted: false,
                kind: SessionKind::NonInteractive,
            }
        } else {
            DeletionSession {
                plan: selections,
                attempted: 0,
                aborted: false,
                kind: SessionKind::Selected,
            }
        }
    }

    /// The next candidate index to remove, or `None` when the run is over.
    pub fn next_target(&self) -> (r: Option<usize>)
        ensures
            r == self.next_target_spec(),
    {
        if !self.aborted && self.attempted < self.plan.len() {
            Some(self.plan[self.attempted])
        } else {
            None
        }
    }

    /// Records whether the removal that `next_target` named succeeded: the
    /// run advances on success and stops for good on failure.
    pub fn record_result(&mut self, success: bool)
        requires
            old(self).next_target_spec() is Some,
        ensures
            *final(self) == step(*old(self), success),
            old(self).wf() ==> final(self).wf(),
    {
        let n = self.plan.len();
        assert(self.attempted < n);
        self.attempted = self.attempted + 1;
        if !success {
            self.aborted = true;
        }
    }

    /// What the finished run reports.
    pub fn outcome(&self) -> (o: DeletionOutcome)
        requires
            self.finished(),
        ensures
            o == self.outcome_spec(),
    {
        if self.aborted {
            DeletionOutcome::Aborted
        } else {
            match self.kind {
                SessionKind::NonInteractive => DeletionOutcome::NonInteractive,
                SessionKind::Selected => {
                    if self.plan.len() == 0 {
                        DeletionOutcome::NothingSelected
                    } else {
                        DeletionOutcome::Completed
                    }
                },
                SessionKind::Forced => DeletionOutcome::Completed,
            }
        }
    }
}

/// Sets up the deletion run that the situation calls for, over `n`
/// candidates: forced mode plans every candidate in list order; interactive
/// mode without an interactive terminal plans nothing and will report
/// success; otherwise the plan is exactly the user's selection.
pub fn handle_deletion(n: usize, force: bool, terminal: bool, selections: Vec<usize>) -> (s:
    DeletionSession)
    requires
        !force && terminal ==> forall|i: int|
            0 <= i < selections@.len() ==> selections@[i] < n,
        !force && terminal ==> forall|i: int, j: int|
            0 <= i < j < selections@.len() ==> selections@[i] < selections@[j],
    ensures
        s.wf(),
        s.attempted == 0,
        !s.aborted,
        force ==> s.kind == SessionKind::Forced && s.plan@.len() == n && (forall|i: int|
            0 <= i < n ==> s.plan@[i] == i),
        !force && !terminal ==> s.kind == SessionKind::NonInteractive && s.plan@.len() == 0,
        !force && terminal ==> s.kind == SessionKind::Selected && s.plan@ == selections@,
{
    if force {
        DeletionSession::new_forced(n)
    } else {
        DeletionSession::new_interactive(terminal, selections, n)
    }
}

/// Running two batches of results one after the other is one longer run.
proof fn lemma_run_append(s: DeletionSession, a: Seq<bool>, b: Seq<bool>)
    ensures
        run(s, a + b) == run(run(s, a), b),
    decreases a.len(),
{
    if a.len() == 0 {
        assert(a + b =~= b);
    } else {
        lemma_run_append(step(s, a[0]), a.drop_first(), b);
        assert((a + b)[0] == a[0]);
        assert((a + b).drop_first() =~= a.drop_first() + b);
    }
}

/// A batch of successful removals advances the run and changes nothing else.
proof fn lemma_run_successes(s: DeletionSession, results: Seq<bool>)
    requires
        !s.aborted,
        s.plan@.len() <= usize::MAX,
        s.attempted + results.len() <= s.plan@.len(),
        forall|i: int| 0 <= i < results.len() ==> results[i],
    ensures
        run(s, results).plan == s.plan,
        run(s, results).kind == s.kind,
        !run(s, results).aborted,
        run(s, results).attempted == s.attempted + results.len(),
    decreases results.len(),
{
    if results.len() > 0 {
        assert(results[0]);
        lemma_run_successes(step(s, results[0]), results.drop_first());
    }
}

/// Abort on first failure: when the first removals of a fresh run succeed
/// and the next one fails, exactly the planned directories before the failed
/// one have been removed, no further target is ever issued, and the run
/// reports failure.
pub proof fn lemma_abort_on_first_failure(s0: DeletionSession, results: Seq<bool>)
    requires
        s0.wf(),
        s0.attempted == 0,
        !s0.aborted,
        s0.plan@.len() <= usize::MAX,
        1 <= results.len() <= s0.plan@.len(),
        forall|i: int| 0 <= i < results.len() - 1 ==> results[i],
        !results[results.len() - 1],
    ensures
        run(s0, results).wf(),
        run(s0, results).aborted,
        run(s0, results).deleted() == s0.plan@.take(results.len() - 1),
        run(s0, results).next_target_spec() is None,
        run(s0, results).outcome_spec() == DeletionOutcome::Aborted,
{
    let k = results.len() - 1;
    let prefix = results.take(k);
    let last = results.skip(k);
    assert(results =~= prefix + last);
    lemma_run_append(s0, prefix, last);
    lemma_run_successes(s0, prefix);
    let mid = run(s0, prefix);
    assert(last.len() == 1);
    assert(last[0] == results[k]);
    assert(run(mid, last) == run(step(mid, false), last.drop_first()));
    assert(last.drop_first() =~= Seq::<bool>::empty());
}

/// Interactive deletion with zero selections: no removal is ever issued and
/// the finished run reports success.
pub proof fn lemma_nothing_selected(s: DeletionSession)
    requires
        s.attempted == 0,
        !s.aborted,
        s.kind == SessionKind::Selected,
        s.plan@.len() == 0,
    ensures
        s.next_target_spec() is None,
        s.deleted() == Seq::<usize>::empty(),
        s.finished(),
        s.outcome_spec() == DeletionOutcome::NothingSelected,
        outcome_is_success(s.outcome_spec()),
{
    assert(s.deleted() =~= Seq::<usize>::empty());
}

/// Interactive deletion without an interactive terminal: a no-op that
/// reports success.
pub proof fn lemma_noninteractive_noop(s: DeletionSession)
    requires
        s.attempted == 0,
        !s.aborted,
        s.kind == SessionKind::NonInteractive,
        s.plan@.len() == 0,
    ensures
        s.next_target_spec() is None,
        s.deleted() == Seq::<usize>::empty(),
        s.finished(),
        s.outcome_spec() == DeletionOutcome::NonInteractive,
        outcome_is_success(s.outcome_spec()),
{
    assert(s.deleted() =~= Seq::<usize>::empty());
}

} // verus!
