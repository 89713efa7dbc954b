use filectrl::copy_start::{
    copy_start, land, landed, opens_source_first, prepare_replace, raced_top, source_unopened,
    top_names, CopyStart, Landed, Landing, Prepared, Raced,
};
use filectrl::copying::{IoFailure, Paths, Seen, Stat};
use filectrl::file_copy::{ChunkAction, ChunkEvent, FileCopy};
use filectrl::sized_read::{SizedRead, SizedStep, ERANGE};

fn paths(old: &str, new: &str) -> Paths {
    Paths { old: old.as_bytes().to_vec(), new: new.as_bytes().to_vec(), depth: 0 }
}

fn os(code: i32, description: &str) -> IoFailure {
    IoFailure::Os { code, description: description.to_string() }
}

fn seen() -> Seen {
    Seen { device: 1, inode: 7, changed_secs: 10, changed_nanos: 0 }
}

fn stat(mode: u32) -> Stat {
    Stat { st_mode: mode, st_ctime: 0, st_ctime_nsec: 0 }
}

/// A name another process took at the top-level destination after the task
/// started is never replaced, whatever the standing answer: "skip all" skips
/// it; otherwise it is recorded.
fn top_raced(skips_raced: bool, is_move: bool) {
    let p = paths("/src/entry", "/dst/entry");
    match raced_top(is_move, false, skips_raced, &p) {
        Raced::Skipped => assert!(skips_raced),
        Raced::Refused(m) => {
            assert!(!skips_raced);
            let verb = if is_move { "move" } else { "copy" };
            assert_eq!(
                format!(
                    "Cannot {verb} \"/src/entry\" to \"/dst/entry\": another entry took that \
                     name after the paste checked it"
                ),
                m
            );
        }
    }
}

#[test]
fn copy_a_name_taken_at_the_top_level_since_the_copy_started_is_never_replaced() {
    for skips_raced in [false, true] {
        for is_move in [false, true] {
            top_raced(skips_raced, is_move);
        }
    }
}

#[test]
fn tests_a_name_taken_at_the_top_level_since_the_copy_started_is_never_replaced() {
    for skips_raced in [false, true] {
        for is_move in [false, true] {
            top_raced(skips_raced, is_move);
        }
    }
}

/// A name taken in the staging directory is refused even under "skip all".
#[test]
fn a_name_taken_in_the_staging_directory_is_refused_whatever_the_answer() {
    match raced_top(false, true, true, &paths("/src/one", "/dest/one")) {
        Raced::Refused(m) => assert_eq!(
            "Cannot copy \"/src/one\" to \"/dest/one\": its staging directory was changed",
            m
        ),
        Raced::Skipped => panic!("a staged name is never skipped"),
    }
}

#[test]
fn a_path_without_a_file_name_is_refused() {
    assert_eq!(
        Err("Cannot copy \"/\": path has no file name".to_string()),
        top_names(false, b"/", b"/dest/x", None)
    );
    assert_eq!(
        Err("Cannot move \"/src/..\": path has no file name; \"/dest/x\" was not replaced".to_string()),
        top_names(true, b"/src/..", b"/dest/x", Some(seen()))
    );
    assert_eq!(Ok((b"a".to_vec(), b"b".to_vec())), top_names(false, b"/s/a", b"/d/b", None));
}

#[test]
fn a_granted_overwrite_of_a_source_whose_type_changed_is_refused_with_the_entry_left() {
    match copy_start(false, b"/src/a", b"/dest/a", false, 0o100644, Ok(stat(0o040755)), Some(seen())) {
        Err(m) => assert_eq!(
            "Cannot copy \"/src/a\": its type changed since it was selected; \"/dest/a\" was not \
             replaced",
            m
        ),
        Ok(_) => panic!("the type changed"),
    }
}

#[test]
fn a_moved_source_whose_type_changed_is_refused() {
    match copy_start(true, b"/src/a", b"/dest/a", true, 0o040755, Ok(stat(0o100644)), None) {
        Err(m) => assert_eq!("Cannot move \"/src/a\": its type changed since it was selected", m),
        Ok(_) => panic!("the type changed"),
    }
}

#[test]
fn the_top_level_entry_is_replaced_copied_or_entered() {
    match copy_start(false, b"/s/a", b"/d/a", false, 0o100644, Ok(stat(0o100600)), Some(seen())) {
        Ok(CopyStart::Replace(granted)) => assert_eq!(seen(), granted),
        _ => panic!("a granted file replaces"),
    }
    assert!(matches!(
        copy_start(false, b"/s/a", b"/d/a", false, 0o100644, Ok(stat(0o100644)), None),
        Ok(CopyStart::Copy)
    ));
    assert!(matches!(
        copy_start(true, b"/s/a", b"/d/a", true, 0o040755, Ok(stat(0o040700)), None),
        Ok(CopyStart::Enter)
    ));
    assert_eq!(
        Err("Failed to copy \"/s/a\" to \"/d/a\": Permission denied (os error 13); \"/d/a\" was \
             not replaced"
            .to_string()),
        copy_start(false, b"/s/a", b"/d/a", false, 0o100644, Err(os(13, "Permission denied")), Some(seen()))
            .map(|_| ())
    );
}

#[test]
fn a_landing_on_a_taken_name_is_skipped_under_skip_all_and_refused_otherwise() {
    let p = paths("/src/one", "/dest/one");
    assert!(matches!(
        landed(false, true, &p, false, Err(os(17, "File exists"))),
        Landed::Skipped
    ));
    match landed(true, false, &p, false, Err(os(17, "File exists"))) {
        Landed::Refused(m) => assert_eq!(
            "Cannot move \"/src/one\" to \"/dest/one\": another entry took that name after the \
             paste checked it",
            m
        ),
        _ => panic!("refused as raced"),
    }
}

#[test]
fn a_failed_landing_says_whether_the_entry_was_left() {
    let p = paths("/src/one", "/dest/one");
    match landed(false, false, &p, true, Err(os(13, "Permission denied"))) {
        Landed::Refused(m) => assert_eq!(
            "Failed to copy \"/src/one\" to \"/dest/one\": Permission denied (os error 13); \
             \"/dest/one\" was not replaced",
            m
        ),
        _ => panic!("the landing failed"),
    }
    match landed(false, false, &p, false, Err(os(13, "Permission denied"))) {
        Landed::Refused(m) => assert_eq!(
            "Failed to copy \"/src/one\" to \"/dest/one\": Permission denied (os error 13)",
            m
        ),
        _ => panic!("the landing failed"),
    }
    assert!(matches!(landed(false, false, &p, true, Ok(())), Landed::Landed));
}

/// A file of ten bytes read in chunks of four: each chunk is written whole
/// and counted, and a read of nothing finishes it; a move restores times.
#[test]
fn a_file_is_copied_chunk_by_chunk_and_counted() {
    let mut copy = FileCopy::new(true, false, paths("/s/f", "/d/f"));
    assert!(matches!(copy.step(false, ChunkEvent::Ready), ChunkAction::Read));
    for n in [4usize, 4, 2] {
        assert!(matches!(copy.step(false, ChunkEvent::Read(Ok(n))), ChunkAction::Write(m) if m == n));
        assert!(matches!(copy.step(false, ChunkEvent::Written(Ok(()))), ChunkAction::Read));
    }
    assert!(matches!(
        copy.step(false, ChunkEvent::Read(Ok(0))),
        ChunkAction::Finish { restore_times: true }
    ));
    assert_eq!(10, copy.progress());
}

/// Like an interrupted `cp`, a cancel stops before the next read and leaves
/// what was written.
#[test]
fn a_cancelled_file_copy_stops_before_the_next_read() {
    let mut copy = FileCopy::new(false, false, paths("/s/f", "/d/f"));
    assert!(matches!(copy.step(false, ChunkEvent::Ready), ChunkAction::Read));
    assert!(matches!(copy.step(false, ChunkEvent::Read(Ok(3))), ChunkAction::Write(3)));
    assert!(matches!(copy.step(true, ChunkEvent::Written(Ok(()))), ChunkAction::Stop));
    assert_eq!(3, copy.progress());
}

#[test]
fn a_failed_read_or_write_ends_the_file_copy_with_its_message() {
    let mut copy = FileCopy::new(false, false, paths("/s/f", "/d/f"));
    copy.step(false, ChunkEvent::Ready);
    match copy.step(false, ChunkEvent::Read(Err(os(5, "Input/output error")))) {
        ChunkAction::Failed(m) => assert_eq!("Failed to read \"/s/f\": Input/output error (os error 5)", m),
        _ => panic!("the read failed"),
    }
    let mut copy = FileCopy::new(false, false, paths("/s/f", "/d/f"));
    copy.step(false, ChunkEvent::Ready);
    copy.step(false, ChunkEvent::Read(Ok(8)));
    match copy.step(false, ChunkEvent::Written(Err(os(28, "No space left on device")))) {
        ChunkAction::Failed(m) => {
            assert_eq!("Failed to write \"/d/f\": No space left on device (os error 28)", m)
        }
        _ => panic!("the write failed"),
    }
    // Staged to replace another, the failure is the transfer's.
    let mut copy = FileCopy::new(false, true, paths("/s/f", "/d/f"));
    copy.step(false, ChunkEvent::Ready);
    copy.step(false, ChunkEvent::Read(Ok(8)));
    match copy.step(false, ChunkEvent::Written(Err(os(27, "File too large")))) {
        ChunkAction::Failed(m) => {
            assert_eq!("Failed to copy \"/s/f\" to \"/d/f\": File too large (os error 27)", m)
        }
        _ => panic!("the write failed"),
    }
}

fn range() -> IoFailure {
    os(ERANGE, "Numerical result out of range")
}

/// Measured at 4 bytes, 6 by the time it is read, then stable.
fn a_value_that_grew_while_it_was_read_is_measured_again() {
    let (mut read, step) = SizedRead::new();
    assert!(matches!(step, SizedStep::Measure));
    assert!(matches!(read.measured(Ok(4)), SizedStep::Read(4)));
    assert!(matches!(read.read(Err(range())), SizedStep::Measure));
    assert!(matches!(read.measured(Ok(6)), SizedStep::Read(6)));
    assert!(matches!(read.read(Ok(6)), SizedStep::Value(6)));
}

#[test]
fn copy_a_value_that_grew_while_it_was_read_is_measured_again() {
    a_value_that_grew_while_it_was_read_is_measured_again();
}

#[test]
fn tests_a_value_that_grew_while_it_was_read_is_measured_again() {
    a_value_that_grew_while_it_was_read_is_measured_again();
}

/// Measured empty, it is read as empty without asking again.
fn a_value_measured_empty_is_not_read_again() {
    let (mut read, _) = SizedRead::new();
    assert!(matches!(read.measured(Ok(0)), SizedStep::Empty));
}

#[test]
fn copy_a_value_measured_empty_is_not_read_again() {
    a_value_measured_empty_is_not_read_again();
}

#[test]
fn tests_a_value_measured_empty_is_not_read_again() {
    a_value_measured_empty_is_not_read_again();
}

/// A value that grows on every call is given up on after three measures,
/// with the range error.
fn a_value_that_keeps_growing_is_given_up_on() {
    let (mut read, _) = SizedRead::new();
    for size in 1..=3usize {
        assert!(matches!(read.measured(Ok(size)), SizedStep::Read(n) if n == size));
        let step = read.read(Err(range()));
        if size < 3 {
            assert!(matches!(step, SizedStep::Measure));
        } else {
            assert!(matches!(step, SizedStep::Failed(IoFailure::Os { code, .. }) if code == ERANGE));
        }
    }
}

#[test]
fn copy_a_value_that_keeps_growing_is_given_up_on() {
    a_value_that_keeps_growing_is_given_up_on();
}

#[test]
fn tests_a_value_that_keeps_growing_is_given_up_on() {
    a_value_that_keeps_growing_is_given_up_on();
}

/// A replacement lands over the entry granted, or onto the name found free;
/// a name holding another entry, or a staging directory changed, is refused.
#[test]
fn a_replacement_lands_only_over_the_entry_granted_or_a_free_name() {
    let p = paths("/src/one", "/dest/one");
    assert!(matches!(land(false, true, &p, seen(), Ok(Some(seen()))), Landing::Rename { replaces: true }));
    assert!(matches!(land(false, true, &p, seen(), Ok(None)), Landing::Rename { replaces: false }));
    let other = Seen { changed_secs: 11, ..seen() };
    assert!(matches!(land(false, true, &p, seen(), Ok(Some(other))), Landing::Changed));
    match land(false, false, &p, seen(), Ok(Some(seen()))) {
        Landing::Refused(m) => assert_eq!(
            "Cannot copy \"/src/one\" to \"/dest/one\": its staging directory was changed; \
             \"/dest/one\" was not replaced",
            m
        ),
        _ => panic!("the staging directory changed"),
    }
    match land(true, true, &p, seen(), Err(os(13, "Permission denied"))) {
        Landing::Refused(m) => assert_eq!(
            "Failed to move \"/src/one\" to \"/dest/one\": Permission denied (os error 13); \
             \"/dest/one\" was not replaced",
            m
        ),
        _ => panic!("the name could not be looked at"),
    }
}

/// A granted overwrite whose entry still holds the name is handed to the
/// copy to replace; a name found free is copied to; another entry refuses
/// the task; a name that cannot be looked at fails it, saying the entry was
/// left.
#[test]
fn a_granted_overwrite_is_checked_before_anything_is_opened() {
    let p = paths("/src/one", "/dest/one");
    assert!(matches!(prepare_replace(false, &p, Some(seen()), Ok(Some(seen()))), Prepared::Go(Some(s)) if s == seen()));
    assert!(matches!(prepare_replace(false, &p, Some(seen()), Ok(None)), Prepared::Go(None)));
    let other = Seen { inode: 8, ..seen() };
    assert!(matches!(prepare_replace(false, &p, Some(seen()), Ok(Some(other))), Prepared::Changed));
    assert!(matches!(prepare_replace(false, &p, None, Err(os(13, "Permission denied"))), Prepared::Go(None)));
    match prepare_replace(true, &p, Some(seen()), Err(os(13, "Permission denied"))) {
        Prepared::Failed(m) => assert_eq!(
            "Failed to move \"/src/one\" to \"/dest/one\": Permission denied (os error 13); \
             \"/dest/one\" was not replaced",
            m
        ),
        _ => panic!("the name could not be looked at"),
    }
}

#[test]
fn only_a_regular_file_is_opened_before_the_copy() {
    assert!(opens_source_first(0o100644));
    assert!(!opens_source_first(0o040755));
    assert!(!opens_source_first(0o010644));
    assert!(!opens_source_first(0o120777));
    let p = paths("/src/one", "/dest/one");
    assert_eq!(
        "Failed to copy \"/src/one\" to \"/dest/one\": Permission denied (os error 13)",
        source_unopened(false, &p, false, &os(13, "Permission denied"))
    );
    assert_eq!(
        "Failed to copy \"/src/one\" to \"/dest/one\": Permission denied (os error 13); \
         \"/dest/one\" was not replaced",
        source_unopened(false, &p, true, &os(13, "Permission denied"))
    );
}
