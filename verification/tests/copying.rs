use filectrl::copying::{
    changed, failed_transfer, floor_across, is_new_empty_directory, mode_bits, refused_or_failed,
    replaced_after_copy, staging_changed, staging_left_behind, still_holds, type_bits, Holds,
    IoFailure, NotNew, Paths, Seen, Stat, StagingReplaced,
};
use filectrl::copying::{
    directory_refusal, inside_destination, move_ended, move_plan, replaced_while_read,
    read_failure, restat_failed, staging_name, acl_names, StagingNames, STAGING_ATTEMPTS, unsupported_type, written_failure,
    EntryId, Renamed, WriteFailure,
};
use filectrl::transfer::compact;

fn one_paths() -> Paths {
    Paths {
        old: b"/src/one".to_vec(),
        new: b"/dest/one".to_vec(),
        depth: 0,
    }
}

#[test]
fn a_replaced_staging_directory_is_refused_in_filectrls_words() {
    let paths = one_paths();
    assert_eq!(
        format!(
            "Cannot move {} to {}: its staging directory was replaced",
            compact(b"/src/one"),
            compact(b"/dest/one")
        ),
        refused_or_failed(true, &paths, &StagingReplaced::error())
    );
}

#[test]
fn a_staging_directory_that_failed_with_an_errno_reads_as_a_failed_transfer() {
    let error = IoFailure::Os {
        code: 13,
        description: "Permission denied".to_string(),
    };
    assert_eq!(
        "Failed to copy \"/src/one\" to \"/dest/one\": Permission denied (os error 13)",
        refused_or_failed(false, &one_paths(), &error)
    );
    assert_eq!(
        refused_or_failed(false, &one_paths(), &error),
        failed_transfer(false, b"/src/one", b"/dest/one", &error)
    );
}

#[test]
fn no_free_staging_name_is_refused_in_the_cannot_form() {
    let error = IoFailure::Other("no free name for a staging directory".to_string());
    assert_eq!(
        "Cannot copy \"/src/one\" to \"/dest/one\": no free name for a staging directory",
        refused_or_failed(false, &one_paths(), &error)
    );
}

#[test]
fn a_staging_directory_holding_another_entry_is_refused() {
    assert_eq!(
        "Cannot move \"/src/one\" to \"/dest/one\": its staging directory was changed",
        staging_changed(true, &one_paths())
    );
}

#[test]
fn a_staging_directory_left_behind_says_where() {
    let error = IoFailure::Other("another entry holds its name, and was left alone".to_string());
    assert_eq!(
        "Failed to remove the staging directory \"/dest/.filectrl-1-0\": another entry holds its \
         name, and was left alone",
        staging_left_behind(b"/dest/.filectrl-1-0", &error)
    );
}

#[test]
fn a_source_replaced_after_it_was_copied_is_kept() {
    assert_eq!(
        "Cannot remove \"/src/a\": it was replaced after it was copied",
        replaced_after_copy(b"/src/a")
    );
}

#[test]
fn what_can_be_a_new_directory_the_one_just_made() {
    assert!(is_new_empty_directory((5, 0), Some((5, 0)), true));
}

#[test]
fn what_can_be_a_new_directory_born_after_the_floor() {
    assert!(is_new_empty_directory((6, 1), Some((5, 0)), true));
}

#[test]
fn what_can_be_a_new_directory_born_before_the_floor() {
    assert!(!is_new_empty_directory((4, 999_999_999), Some((5, 0)), true));
}

#[test]
fn what_can_be_a_new_directory_not_empty() {
    assert!(!is_new_empty_directory((5, 0), Some((5, 0)), false));
}

#[test]
fn what_can_be_a_new_directory_no_floor_empty() {
    assert!(is_new_empty_directory((4, 0), None, true));
}

#[test]
fn what_can_be_a_new_directory_no_floor_not_empty() {
    assert!(!is_new_empty_directory((6, 0), None, false));
}

#[test]
fn what_bounds_a_new_directory_unchanged() {
    assert_eq!(Some((5, 0)), floor_across((5, 0), (5, 0)));
}

#[test]
fn what_bounds_a_new_directory_moved_forward() {
    assert_eq!(Some((5, 0)), floor_across((5, 0), (6, 3)));
}

#[test]
fn what_bounds_a_new_directory_went_backwards() {
    assert_eq!(None, floor_across((9, 0), (5, 0)));
}

#[test]
fn what_bounds_a_new_directory_went_back_by_a_nanosecond() {
    assert_eq!(None, floor_across((5, 7), (5, 6)));
}

#[test]
fn the_permission_bits_keep_the_special_bits_and_drop_the_type() {
    assert_eq!(0o4755, mode_bits(0o104_755));
}

#[test]
fn the_type_bits_drop_the_permissions() {
    assert_eq!(0o100_000, type_bits(0o104_755));
    assert_eq!(0o040_000, type_bits(0o040_700));
}

#[test]
fn the_change_time_comes_with_its_nanoseconds() {
    let stat = Stat {
        st_mode: 0o040_755,
        st_ctime: 17,
        st_ctime_nsec: 42,
    };
    assert_eq!((17, 42), changed(&stat));
}

#[test]
fn a_name_still_holds_only_the_entry_seen() {
    let granted = Seen {
        device: 1,
        inode: 2,
        changed_secs: 3,
        changed_nanos: 4,
    };
    assert_eq!(Holds::Free, still_holds(granted, None));
    assert_eq!(Holds::Granted, still_holds(granted, Some(granted)));
    let written_since = Seen {
        changed_nanos: 5,
        ..granted
    };
    assert_eq!(Holds::Changed, still_holds(granted, Some(written_since)));
    let another = Seen { inode: 9, ..granted };
    assert_eq!(Holds::Changed, still_holds(granted, Some(another)));
}

#[test]
fn each_refusal_knows_itself() {
    assert!(NotNew::is(&NotNew::error()));
    assert!(!NotNew::is(&StagingReplaced::error()));
    assert!(StagingReplaced::is(&StagingReplaced::error()));
    assert_eq!(None, NotNew::error().raw_os_error());
    assert_eq!(
        "the directory it was creating was replaced",
        NotNew::error().message()
    );
}

#[test]
fn an_errno_reads_as_the_system_says_it() {
    let error = IoFailure::Os {
        code: 2,
        description: "No such file or directory".to_string(),
    };
    assert_eq!(Some(2), error.raw_os_error());
    assert_eq!("No such file or directory (os error 2)", error.message());
}

#[test]
fn going_down_and_back_up_restores_the_paths() {
    let mut paths = one_paths();
    paths.push(b"inner");
    assert_eq!(b"/src/one/inner".to_vec(), paths.old);
    assert_eq!(b"/dest/one/inner".to_vec(), paths.new);
    assert_eq!(1, paths.depth);
    paths.pop();
    assert_eq!(b"/src/one".to_vec(), paths.old);
    assert_eq!(b"/dest/one".to_vec(), paths.new);
    assert_eq!(0, paths.depth);
}

#[test]
fn a_move_over_the_entry_granted_replaces_it() {
    let granted = Seen {
        device: 1,
        inode: 2,
        changed_secs: 3,
        changed_nanos: 4,
    };
    let source = Some(EntryId { device: 1, inode: 9 });
    assert!(matches!(move_plan(None, source), Ok(false)));
    assert!(matches!(move_plan(Some((granted, Ok(Some(granted)))), source), Ok(true)));
    assert!(matches!(move_plan(Some((granted, Ok(None))), source), Ok(false)));
    let other = Seen { inode: 5, ..granted };
    assert!(matches!(
        move_plan(Some((granted, Ok(Some(other)))), source),
        Err(Renamed::Changed)
    ));
    let link_to_source = Seen { inode: 9, ..granted };
    assert!(matches!(
        move_plan(Some((granted, Ok(Some(link_to_source)))), source),
        Err(Renamed::SameFile)
    ));
    let failed = IoFailure::Os {
        code: 13,
        description: "Permission denied".to_string(),
    };
    assert!(matches!(
        move_plan(Some((granted, Err(failed))), source),
        Err(Renamed::Failed { kept: true, .. })
    ));
    assert!(matches!(move_ended(true, Ok(())), Renamed::Moved));
    let failed = IoFailure::Other("busy".to_string());
    assert!(matches!(
        move_ended(false, Err(failed)),
        Renamed::Failed { kept: false, .. }
    ));
}

#[test]
fn a_source_directory_the_copy_made_is_refused() {
    assert_eq!(
        "Cannot copy \"/s/d\": it is inside the destination being written",
        inside_destination(false, b"/s/d")
    );
    assert_eq!(
        "Cannot move \"/s/d\": it was replaced while it was being read",
        replaced_while_read(true, b"/s/d")
    );
}

#[test]
fn a_destination_directory_swapped_in_is_refused() {
    assert_eq!(
        "Cannot copy \"/src/one\" to \"/dest/one\": the directory it was creating was replaced",
        directory_refusal(false, &one_paths(), &NotNew::error())
    );
    let error = IoFailure::Os {
        code: 28,
        description: "No space left on device".to_string(),
    };
    assert_eq!(
        "Failed to create directory \"/dest/one\": No space left on device (os error 28)",
        directory_refusal(false, &one_paths(), &error)
    );
}

#[test]
fn a_source_that_cannot_be_read_again_says_which_operation() {
    let error = IoFailure::Os {
        code: 2,
        description: "No such file or directory".to_string(),
    };
    assert_eq!(
        "Failed to delete \"/a\": No such file or directory (os error 2)",
        restat_failed("delete", b"/a", &error)
    );
}

#[test]
fn a_staging_directory_is_hidden_and_named_for_its_process() {
    assert_eq!(".filectrl-4321-0", staging_name(4321, 0));
    assert_eq!(".filectrl-1-18446744073709551615", staging_name(1, u64::MAX));
}

#[test]
fn the_acls_are_named_by_kind_a_file() {
    assert_eq!(vec![b"system.posix_acl_access".to_vec()], acl_names(false));
}

#[test]
fn the_acls_are_named_by_kind_a_directory() {
    assert_eq!(
        vec![
            b"system.posix_acl_access".to_vec(),
            b"system.posix_acl_default".to_vec()
        ],
        acl_names(true)
    );
}

#[test]
fn a_failure_to_write_names_the_entry_unless_it_is_staged() {
    let error = IoFailure::Os {
        code: 28,
        description: "No space left on device".to_string(),
    };
    assert_eq!(
        "Failed to write \"/dest/one\": No space left on device (os error 28)",
        written_failure(WriteFailure::Write, false, false, &one_paths(), &error)
    );
    assert_eq!(
        "Failed to create symlink \"/dest/one\": No space left on device (os error 28)",
        written_failure(WriteFailure::CreateSymlink, false, false, &one_paths(), &error)
    );
    assert_eq!(
        "Failed to create special file \"/dest/one\": No space left on device (os error 28)",
        written_failure(WriteFailure::CreateSpecialFile, false, true, &one_paths(), &error)
    );
    assert_eq!(
        "Failed to move \"/src/one\" to \"/dest/one\": No space left on device (os error 28)",
        written_failure(WriteFailure::Write, true, true, &one_paths(), &error)
    );
}

#[test]
fn a_source_that_cannot_be_read_is_named() {
    let error = IoFailure::Os {
        code: 5,
        description: "Input/output error".to_string(),
    };
    assert_eq!(
        "Failed to read \"/src/one\": Input/output error (os error 5)",
        read_failure(false, b"/src/one", &error)
    );
    assert_eq!(
        "Failed to read symlink \"/src/one\": Input/output error (os error 5)",
        read_failure(true, b"/src/one", &error)
    );
    assert_eq!(
        "Cannot copy \"/src/one\": unsupported file type",
        unsupported_type(false, b"/src/one")
    );
}

/// Two rounds of names for one process, the second going on from the serial
/// the first stopped at, share no name, and each offers `STAGING_ATTEMPTS`.
#[test]
fn staging_names_are_never_offered_twice_in_one_process() {
    let pid = 4321;
    let mut first = StagingNames::new(pid, 0);
    let mut names = Vec::new();
    let mut next = 0;
    while let Some((name, serial)) = first.next_name() {
        names.push(name);
        next = serial + 1;
    }
    assert_eq!(STAGING_ATTEMPTS, names.len() as u64);
    let mut second = StagingNames::new(pid, next);
    while let Some((name, _)) = second.next_name() {
        names.push(name);
    }
    let all: std::collections::HashSet<&String> = names.iter().collect();
    assert_eq!(names.len(), all.len());
    assert_eq!(2 * STAGING_ATTEMPTS, names.len() as u64);
    let prefix = format!(".filectrl-{pid}-");
    assert!(names.iter().all(|name| name.starts_with(&prefix)), "{names:?}");
}
