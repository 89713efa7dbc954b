use filectrl::tasks::{
    after_cross_device_copy, after_source_removal, cancel_logging, check_cancelled, finalize,
    summarize, TaskEnd,
};

fn strings(errors: &[&str]) -> Vec<String> {
    errors.iter().map(|e| e.to_string()).collect()
}

#[test]
fn several_failed_entries_are_reported_as_the_first_and_a_count_of_the_rest() {
    let end = finalize(strings(&["first", "second", "third"]));
    match end {
        TaskEnd::Error(message) => assert_eq!("first (and 2 more)", message),
        _ => panic!("the task should have failed"),
    }
}

#[test]
fn a_cancel_that_lands_while_queued_stops_the_task() {
    assert!(matches!(check_cancelled(true), Some(TaskEnd::Cancelled)));
}

#[test]
fn a_task_not_cancelled_runs() {
    assert!(check_cancelled(false).is_none());
}

#[test]
fn no_errors_is_done() {
    assert!(summarize(Vec::new()).is_none());
    assert!(matches!(finalize(Vec::new()), TaskEnd::Done));
}

#[test]
fn one_error_is_reported_as_it_is() {
    assert_eq!(Some("only".to_string()), summarize(strings(&["only"])));
}

#[test]
fn the_count_of_the_rest_is_written_in_decimal() {
    let errors: Vec<String> = (0..13).map(|i| format!("e{i}")).collect();
    assert_eq!(Some("e0 (and 12 more)".to_string()), summarize(errors));
}

#[test]
fn a_cancelled_task_ends_cancelled_whatever_it_recorded() {
    assert!(matches!(cancel_logging(&strings(&["a"])), TaskEnd::Cancelled));
}

#[test]
fn a_cross_device_move_keeps_its_source_when_an_entry_failed() {
    match after_cross_device_copy(strings(&["a.txt could not be written"]), 0, b"/src") {
        Some(TaskEnd::Error(message)) => assert_eq!("a.txt could not be written", message),
        _ => panic!("the move should have stopped"),
    }
    assert!(after_cross_device_copy(Vec::new(), 0, b"/src").is_none());
}

/// A move across devices whose copy skipped an entry inside the tree under
/// "skip all" keeps its whole source, from what the copy itself reports.
fn a_move_whose_copy_skipped_an_inner_entry_keeps_its_source() {
    match after_cross_device_copy(Vec::new(), 1, b"/tmp/src/tree") {
        Some(TaskEnd::Error(message)) => {
            assert_eq!("Skipped 1 entry, so the original \"/tmp/src/tree\" was kept", message)
        }
        _ => panic!("the move should have kept its source"),
    }
    match after_cross_device_copy(Vec::new(), 3, b"/tmp/src/tree") {
        Some(TaskEnd::Error(message)) => {
            assert_eq!("Skipped 3 entries, so the original \"/tmp/src/tree\" was kept", message)
        }
        _ => panic!("the move should have kept its source"),
    }
}

#[test]
fn a_cross_device_move_that_cannot_remove_its_source_says_it_was_moved() {
    let end = after_source_removal(
        b"/src",
        b"/dest",
        strings(&["Failed to delete \"/src/sub/b.txt\": Permission denied (os error 13)"]),
    );
    match end {
        TaskEnd::Error(message) => assert_eq!(
            "Failed to remove the original \"/src\" once it was moved to \"/dest\": Failed to \
             delete \"/src/sub/b.txt\": Permission denied (os error 13)",
            message
        ),
        _ => panic!("the removal failed"),
    }
    assert!(matches!(after_source_removal(b"/src", b"/dest", Vec::new()), TaskEnd::Done));
}

#[test]
fn copy_a_move_whose_copy_skipped_an_inner_entry_keeps_its_source() {
    a_move_whose_copy_skipped_an_inner_entry_keeps_its_source();
}

#[test]
fn tests_a_move_whose_copy_skipped_an_inner_entry_keeps_its_source() {
    a_move_whose_copy_skipped_an_inner_entry_keeps_its_source();
}
