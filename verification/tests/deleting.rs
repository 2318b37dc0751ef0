//! Driving deletion runs through the session state machine.

use clean_big_targets::{handle_deletion, DeletionOutcome, DeletionSession};

#[test]
fn test_handle_deletion_dispatch() {
    let forced = handle_deletion(2, true, false, vec![]);
    assert_eq!(forced.next_target(), Some(0));
    let noninteractive = handle_deletion(2, false, false, vec![]);
    assert_eq!(noninteractive.next_target(), None);
    assert_eq!(noninteractive.outcome(), DeletionOutcome::NonInteractive);
    let selected = handle_deletion(2, false, true, vec![1]);
    assert_eq!(selected.next_target(), Some(1));
}

#[test]
fn test_forced_run_deletes_all_in_order() {
    let mut session = DeletionSession::new_forced(3);
    let mut issued = Vec::new();
    while let Some(idx) = session.next_target() {
        issued.push(idx);
        session.record_result(true);
    }
    assert_eq!(issued, vec![0, 1, 2]);
    assert_eq!(session.outcome(), DeletionOutcome::Completed);
}

#[test]
fn test_forced_run_aborts_on_first_failure() {
    // Five candidates; the removal of the third fails. The first two stay
    // removed, the last two are never touched, and the run reports failure.
    let mut session = DeletionSession::new_forced(5);
    let mut removed = Vec::new();
    let mut attempts = 0;
    while let Some(idx) = session.next_target() {
        attempts += 1;
        let success = idx != 2;
        if success {
            removed.push(idx);
        }
        session.record_result(success);
    }
    assert_eq!(removed, vec![0, 1]);
    assert_eq!(attempts, 3);
    assert_eq!(session.next_target(), None);
    assert_eq!(session.outcome(), DeletionOutcome::Aborted);
}

#[test]
fn test_interactive_without_terminal_is_noop_success() {
    let session = DeletionSession::new_interactive(false, vec![], 4);
    assert_eq!(session.next_target(), None);
    assert_eq!(session.outcome(), DeletionOutcome::NonInteractive);
    assert_ne!(session.outcome(), DeletionOutcome::Aborted);
}

#[test]
fn test_interactive_zero_selections_is_noop_success() {
    let session = DeletionSession::new_interactive(true, vec![], 4);
    assert_eq!(session.next_target(), None);
    assert_eq!(session.outcome(), DeletionOutcome::NothingSelected);
    assert_ne!(session.outcome(), DeletionOutcome::Aborted);
}

#[test]
fn test_interactive_deletes_only_selection_in_order() {
    let mut session = DeletionSession::new_interactive(true, vec![0, 2], 3);
    let mut issued = Vec::new();
    while let Some(idx) = session.next_target() {
        issued.push(idx);
        session.record_result(true);
    }
    assert_eq!(issued, vec![0, 2]);
    assert_eq!(session.outcome(), DeletionOutcome::Completed);
}

#[test]
fn test_interactive_aborts_on_failure() {
    let mut session = DeletionSession::new_interactive(true, vec![1, 2], 3);
    assert_eq!(session.next_target(), Some(1));
    session.record_result(false);
    assert_eq!(session.next_target(), None);
    assert_eq!(session.outcome(), DeletionOutcome::Aborted);
}
