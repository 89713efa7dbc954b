use filectrl::copying::IoFailure;
use filectrl::modes::{
    directory_creation_mode, file_creation_mode, final_mode_of, mode_restore_error,
    owner_access_for, Created, SourceOwner,
};

fn source(mode: u32) -> SourceOwner {
    SourceOwner {
        mode,
        uid: 1000,
        gid: 100,
    }
}

fn created(mode: u32, is_directory: bool) -> Created {
    Created {
        mode,
        uid: 1000,
        gid: 100,
        is_directory,
    }
}

#[test]
fn a_file_is_created_with_the_source_bits_or_for_a_move_its_owner_bits() {
    assert_eq!(0o755, file_creation_mode(0o104_755, false));
    assert_eq!(0o700, file_creation_mode(0o100_744, true));
    assert_eq!(0o600, file_creation_mode(0o100_444, true));
}

#[test]
fn a_directory_is_created_owner_writable() {
    assert_eq!(0o755, directory_creation_mode(0o040_555, false));
    assert_eq!(0o700, directory_creation_mode(0o040_555, true));
}

#[test]
fn a_copy_keeps_what_the_umask_left_and_drops_setuid() {
    // Source 4755, created 0755 and trimmed by a umask of 022 to 0755.
    assert_eq!(0o755, final_mode_of(false, &source(0o4755), &created(0o100_755, false)));
    // Owner access was added to create the copy; the source's owner bits come back.
    assert_eq!(0o555, final_mode_of(false, &source(0o555), &created(0o040_755, true)));
}

#[test]
fn a_copied_directory_keeps_the_setgid_it_inherited() {
    assert_eq!(0o2755, final_mode_of(false, &source(0o755), &created(0o042_755, true)));
    assert_eq!(0o755, final_mode_of(false, &source(0o755), &created(0o102_755, false)));
}

#[test]
fn a_move_keeps_the_mode_with_its_owner() {
    assert_eq!(0o6755, final_mode_of(true, &source(0o106_755), &created(0o100_700, false)));
    let other_group = Created {
        gid: 5,
        ..created(0o100_700, false)
    };
    assert_eq!(0o1755, final_mode_of(true, &source(0o107_755), &other_group));
}

#[test]
fn owner_access_is_added_only_where_it_is_missing() {
    assert_eq!(None, owner_access_for(0o040_755));
    assert_eq!(Some(0o755), owner_access_for(0o040_455));
    assert_eq!(Some(0o700), owner_access_for(0o000));
}

#[test]
fn a_mode_that_could_not_be_restored_says_which() {
    let error = IoFailure::Os {
        code: 1,
        description: "Operation not permitted".to_string(),
    };
    assert_eq!(
        Some("Failed to chmod \"/t/fifo\" to 644: Operation not permitted (os error 1)".to_string()),
        mode_restore_error(b"/t/fifo", 0o10_644, &error, false, false)
    );
    assert_eq!(
        Some(
            "Failed to set the mode of the replacement for \"/t/fifo\": Operation not permitted \
             (os error 1)"
                .to_string()
        ),
        mode_restore_error(b"/t/fifo", 0o644, &error, false, true)
    );
    assert_eq!(None, mode_restore_error(b"/t/fifo", 0o644, &error, true, false));
}

/// What a umask of 0o277 leaves of a mode: nothing but the owner's read and
/// search, and everything of the group and others.
const UMASK_0277_LEAVES: u32 = 0o777 & !0o277;

/// A copy's owner bits are the source's as the umask leaves them, like `cp`:
/// a umask that clears the owner's write bit clears it on the copy, of a
/// file and of a directory, which owner access was added to while it was
/// filled.
fn a_copy_under_a_umask_clearing_owner_bits() {
    let source = SourceOwner { mode: 0o100777, uid: 1000, gid: 1000 };
    let file = Created {
        mode: 0o100000 | (file_creation_mode(0o100777, false) & UMASK_0277_LEAVES),
        uid: 1000,
        gid: 1000,
        is_directory: false,
    };
    assert_eq!(UMASK_0277_LEAVES, final_mode_of(false, &source, &file) & 0o7777);

    let dir_source = SourceOwner { mode: 0o040777, uid: 1000, gid: 1000 };
    let created = directory_creation_mode(0o040777, false) & UMASK_0277_LEAVES;
    // Owner access is added to fill it, and the mode as created kept to end with.
    assert_eq!(Some(0o700 | created), owner_access_for(created));
    let dir = Created { mode: 0o040000 | created, uid: 1000, gid: 1000, is_directory: true };
    assert_eq!(UMASK_0277_LEAVES, final_mode_of(false, &dir_source, &dir) & 0o7777);
}

#[test]
fn copy_a_copy_takes_the_umask_on_the_owner_bits_too() {
    a_copy_under_a_umask_clearing_owner_bits();
}

#[test]
fn tests_a_copy_takes_the_umask_on_the_owner_bits_too() {
    a_copy_under_a_umask_clearing_owner_bits();
}

/// A umask that clears the owner's read bit (0o477) leaves a new staging
/// directory, made owner-only, impossible to open; owner access is given back
/// before it is written into.
fn a_replacement_under_a_umask_clearing_owner_read() {
    let staging = 0o700 & !0o477;
    assert_eq!(0o300, staging);
    assert_eq!(Some(0o700), owner_access_for(staging));
}

#[test]
fn a_replacement_opens_its_staging_directory_whatever_the_umask() {
    a_replacement_under_a_umask_clearing_owner_read();
}

#[test]
fn a_replacement_whose_staging_directory_cannot_be_read_leaves_the_entry() {
    a_replacement_under_a_umask_clearing_owner_read();
}
