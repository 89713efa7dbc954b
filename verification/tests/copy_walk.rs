use filectrl::copy_walk::{CopyNext, CopyWalk, Copying, Left};
use filectrl::copying::{EntryId, IoFailure};
use filectrl::walk::Level;

fn level(handles: &str, id: u64, names: &[&str]) -> Level<String, u64, Copying<&'static str>> {
    Level::open(
        handles.to_string(),
        id,
        Copying {
            source: "mode",
            umask_left: None,
            names: names.iter().map(|n| n.as_bytes().to_vec()).collect(),
        },
    )
}

/// `/s` holding `a` and a directory `d` holding `b`, copied to `/t`.
#[test]
fn a_tree_is_copied_in_step_and_every_directory_finished() {
    let mut copy = CopyWalk::new(false, false, level("s", 1, &["a", "d"]), b"/s".to_vec(), b"/t".to_vec());

    assert_eq!(CopyNext::Entry, copy.next(false));
    assert_eq!(b"a".to_vec(), copy.take_entry());
    assert_eq!((b"/s/a".as_slice(), b"/t/a".as_slice()), copy.paths());
    copy.entry_done(true);

    assert_eq!(CopyNext::Entry, copy.next(false));
    assert_eq!(b"d".to_vec(), copy.take_entry());
    copy.entered(level("d", 2, &["b"]));
    assert_eq!(Some(&"d".to_string()), copy.top_handles());

    assert_eq!(CopyNext::Entry, copy.next(false));
    assert_eq!(b"b".to_vec(), copy.take_entry());
    assert_eq!((b"/s/d/b".as_slice(), b"/t/d/b".as_slice()), copy.paths());
    copy.entry_done(true);

    assert_eq!(CopyNext::Leave, copy.next(false));
    match copy.leave() {
        Left::Child { handles, parent, .. } => {
            assert_eq!("d", handles);
            assert_eq!(1, parent);
        }
        Left::Top { .. } => panic!("d has a parent"),
    }
    copy.reopened(Ok("s again".to_string()));
    assert_eq!((b"/s".as_slice(), b"/t".as_slice()), copy.paths());

    assert_eq!(CopyNext::Leave, copy.next(false));
    assert!(matches!(copy.leave(), Left::Top { .. }));
    assert_eq!(CopyNext::Finished, copy.next(false));
    let outcome = copy.into_outcome();
    let (errors, finished) = (outcome.errors, outcome.finished);
    assert!(errors.is_empty());
    assert!(finished);
}

/// A cancel stops the walk between entries, and every directory entered is
/// still left, to be finished.
#[test]
fn a_cancel_still_leaves_every_directory() {
    let mut copy = CopyWalk::new(true, false, level("s", 1, &["d", "e"]), b"/s".to_vec(), b"/t".to_vec());
    assert_eq!(CopyNext::Entry, copy.next(false));
    copy.take_entry();
    copy.entered(level("d", 2, &["x", "y"]));
    assert_eq!(CopyNext::Leave, copy.next(true));
    assert!(matches!(copy.leave(), Left::Child { .. }));
    copy.reopened(Ok("s".to_string()));
    // The cancel is kept: the name left in the top is not copied.
    assert_eq!(CopyNext::Leave, copy.next(false));
    assert!(matches!(copy.leave(), Left::Top { .. }));
    let outcome = copy.into_outcome();
    let (_, finished) = (outcome.errors, outcome.finished);
    assert!(!finished);
}

#[test]
fn an_entry_cancelled_while_copied_stops_the_walk() {
    let mut copy = CopyWalk::new(false, false, level("s", 1, &["a", "b"]), b"/s".to_vec(), b"/t".to_vec());
    copy.next(false);
    copy.take_entry();
    copy.entry_done(false);
    assert_eq!(CopyNext::Leave, copy.next(false));
}

#[test]
fn metadata_that_cannot_be_read_is_reported_and_passed_over() {
    let mut copy = CopyWalk::new(false, false, level("s", 1, &["a", "b"]), b"/s".to_vec(), b"/t".to_vec());
    copy.next(false);
    copy.take_entry();
    copy.stat_failed(&IoFailure::Os {
        code: 13,
        description: "Permission denied".to_string(),
    });
    assert_eq!(CopyNext::Entry, copy.next(false));
    assert_eq!(b"b".to_vec(), copy.take_entry());
    copy.entry_done(true);
    let outcome = copy.into_outcome();
    let (errors, _) = (outcome.errors, outcome.finished);
    assert_eq!(
        vec!["Failed to read metadata for \"/s/a\": Permission denied (os error 13)".to_string()],
        errors
    );
}

#[test]
fn a_parent_that_cannot_be_reopened_ends_the_copy() {
    let mut copy = CopyWalk::new(false, false, level("s", 1, &["d", "e"]), b"/s".to_vec(), b"/t".to_vec());
    copy.next(false);
    copy.take_entry();
    copy.entered(level("d", 2, &[]));
    assert_eq!(CopyNext::Leave, copy.next(false));
    let _ = copy.leave();
    copy.reopened(Err(IoFailure::Other(
        "it was relocated while it was being read".to_string(),
    )));
    assert_eq!(CopyNext::Finished, copy.next(false));
    let outcome = copy.into_outcome();
    let (errors, finished) = (outcome.errors, outcome.finished);
    assert_eq!(
        vec!["Cannot copy \"/s\": it was relocated while it was being read".to_string()],
        errors
    );
    assert!(finished);
}

#[test]
fn a_system_failure_to_reopen_reads_as_a_failure() {
    let mut copy = CopyWalk::new(true, false, level("s", 1, &["d"]), b"/s".to_vec(), b"/t".to_vec());
    copy.next(false);
    copy.take_entry();
    copy.entered(level("d", 2, &[]));
    copy.next(false);
    let _ = copy.leave();
    copy.reopened(Err(IoFailure::Os {
        code: 13,
        description: "Permission denied".to_string(),
    }));
    let outcome = copy.into_outcome();
    let (errors, _) = (outcome.errors, outcome.finished);
    assert_eq!(
        vec!["Failed to move \"/s\": Permission denied (os error 13)".to_string()],
        errors
    );
}

#[test]
fn what_went_wrong_with_an_entry_is_recorded() {
    let mut copy = CopyWalk::new(false, false, level("s", 1, &["a"]), b"/s".to_vec(), b"/t".to_vec());
    copy.next(false);
    copy.take_entry();
    copy.record("Failed to copy \"/s/a\"".to_string());
    copy.entry_done(true);
    let outcome = copy.into_outcome();
    let (errors, finished) = (outcome.errors, outcome.finished);
    assert_eq!(vec!["Failed to copy \"/s/a\"".to_string()], errors);
    assert!(finished);
}

#[test]
fn a_directory_the_copy_made_is_never_copied_into_itself() {
    let made = EntryId { device: 1, inode: 7 };
    let mut copy = CopyWalk::new(false, false, level("s", 1, &["d"]), b"/s".to_vec(), b"/t".to_vec());
    copy.next(false);
    copy.take_entry();
    assert!(copy.may_enter(EntryId { device: 1, inode: 2 }));
    copy.made(made);
    assert!(!copy.may_enter(made));
    copy.entry_done(true);
    let outcome = copy.into_outcome();
    let (errors, _) = (outcome.errors, outcome.finished);
    assert_eq!(
        vec!["Cannot copy \"/s/d\": it is inside the destination being written".to_string()],
        errors
    );
}

/// The outcome a name taken inside a directory the copy created must have:
/// skipped under a standing "skip all", otherwise recorded, and never
/// replaced.
fn nested_raced(skips_raced: bool, is_move: bool, depth: usize) {
    let case = format!("skip all {skips_raced}, move {is_move}, depth {depth}");
    let mut copy = CopyWalk::new(
        is_move,
        skips_raced,
        level("s", 1, &["tree"]),
        b"/src".to_vec(),
        b"/dst".to_vec(),
    );
    // The tree, then `depth` directories of `sub` below it holding the entry.
    for d in 0..=depth {
        assert_eq!(CopyNext::Entry, copy.next(false), "{case}");
        copy.take_entry();
        let names: &[&str] = if d < depth { &["sub"] } else { &["entry"] };
        copy.entered(level("dir", 2 + d as u64, names));
    }
    assert_eq!(CopyNext::Entry, copy.next(false), "{case}");
    copy.take_entry();
    let (old, new) = {
        let (o, n) = copy.paths();
        (String::from_utf8(o.to_vec()).unwrap(), String::from_utf8(n.to_vec()).unwrap())
    };
    copy.raced();
    copy.entry_done(true);
    let outcome = copy.into_outcome();
    if skips_raced {
        assert!(outcome.errors.is_empty(), "{case}: {:?}", outcome.errors);
        assert_eq!(1, outcome.skipped, "{case}");
    } else {
        let verb = if is_move { "move" } else { "copy" };
        let refusal = format!(
            "Cannot {verb} \"{old}\" to \"{new}\": the name is already taken there, by another \
             entry or one the destination treats as the same"
        );
        assert_eq!(vec![refusal], outcome.errors, "{case}");
        assert_eq!(0, outcome.skipped, "{case}");
    }
}

/// Inside a directory the copy created, at any depth, a name taken is never
/// replaced, whatever the standing answer: it may be the copy's own entry
/// under a name the destination folds together with another. "Skip all"
/// still skips it; otherwise it is recorded, so a move keeps its source.
#[test]
fn copy_a_name_taken_inside_a_created_directory_is_never_replaced() {
    for skips_raced in [false, true] {
        for is_move in [false, true] {
            for depth in [1, 2] {
                nested_raced(skips_raced, is_move, depth);
            }
        }
    }
}

#[test]
fn tests_a_name_taken_inside_a_created_directory_is_never_replaced() {
    for skips_raced in [false, true] {
        for is_move in [false, true] {
            for depth in [1, 2] {
                nested_raced(skips_raced, is_move, depth);
            }
        }
    }
}
