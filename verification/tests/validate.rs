use filectrl::transfer::{display_path, validate_paths, Observed, PathInfo, Resolution};

/// A source or destination as the listing showed it, reported as a
/// directory, which the subdirectory check requires.
fn path_info(path: &[u8]) -> PathInfo {
    PathInfo {
        path: path.to_vec(),
        is_directory: true,
    }
}

fn unresolved() -> Resolution {
    Resolution {
        canonical: None,
        absolute: None,
    }
}

/// Paths that exist nowhere: nothing resolves, nothing is at the destination.
fn nothing_on_disk() -> Observed {
    Observed {
        source: unresolved(),
        destination: unresolved(),
        same_file: false,
        source_link_target: None,
        existing: None,
    }
}

fn rejection(source: &PathInfo, destination: &PathInfo) -> String {
    match validate_paths(source, destination, false, false, &nothing_on_disk()) {
        Ok(_) => panic!("the paths should have been refused"),
        Err(message) => message,
    }
}

#[test]
fn validate_paths_rejects_identical_source_and_destination() {
    let src = path_info(b"/a/b");
    let dest = path_info(b"/a");
    let message = rejection(&src, &dest);
    assert!(message.ends_with("into its own directory"), "{message}");
}

#[test]
fn validate_paths_rejects_destination_inside_source() {
    let src = path_info(b"/a/b");
    let dest = path_info(b"/a/b/c");
    let message = rejection(&src, &dest);
    assert!(message.contains("into its own subdirectory"), "{message}");
}

#[test]
fn validate_paths_rejects_destination_inside_source_via_parent_dir() {
    // Resolves to "/a/b/d", inside the source.
    let src = path_info(b"/a/b");
    let dest = path_info(b"/a/c/../b/d");
    let message = rejection(&src, &dest);
    assert!(message.contains("into its own subdirectory"), "{message}");
}

#[test]
fn validate_paths_allows_sibling_destination() {
    let src = path_info(b"/a/b");
    let dest = path_info(b"/x");
    let (old_path, new_path) = validate_paths(&src, &dest, false, false, &nothing_on_disk())
        .expect("should be allowed");
    assert_eq!(b"/a/b".to_vec(), old_path);
    assert_eq!(b"/x/b".to_vec(), new_path);
}

#[test]
fn validate_paths_allows_destination_with_shared_prefix_but_different_component() {
    let src = path_info(b"/a/b");
    let dest = path_info(b"/a/bb");
    assert!(validate_paths(&src, &dest, false, false, &nothing_on_disk()).is_ok());
}

#[test]
fn validate_paths_preserves_non_utf8_source_names() {
    let src = path_info(b"/a/caf\xe9.txt");
    let dest = path_info(b"/x");
    let (_, new_path) = validate_paths(&src, &dest, false, false, &nothing_on_disk())
        .expect("should be allowed");
    assert_eq!(b"/x/caf\xe9.txt".to_vec(), new_path);
}

#[test]
fn display_path_spells_out_a_byte_that_is_not_utf8() {
    let path: &[u8] = b"/a/caf\xe9.txt";
    assert_eq!("/a/caf\\xe9.txt", display_path(path, &Some(path.to_vec())));
}

#[test]
fn validate_paths_rejects_source_without_file_name() {
    let src = path_info(b"/");
    let dest = path_info(b"/x");
    let message = rejection(&src, &dest);
    assert!(message.ends_with("path has no file name"), "{message}");
}

#[test]
fn a_relative_path_is_shown_as_made_absolute() {
    assert_eq!(
        "/home/u/caf\\xe9",
        display_path(b"caf\xe9", &Some(b"/home/u/caf\xe9".to_vec()))
    );
    assert_eq!("caf\\xe9", display_path(b"caf\xe9", &None));
}

#[test]
fn a_move_into_its_own_directory_says_move() {
    let src = path_info(b"/a/b");
    let dest = path_info(b"/a");
    let message = match validate_paths(&src, &dest, true, false, &nothing_on_disk()) {
        Ok(_) => panic!("refused"),
        Err(message) => message,
    };
    assert_eq!("Cannot move \"/a/b\" into its own directory", message);
}

#[test]
fn the_same_file_under_another_name_is_refused() {
    let src = PathInfo {
        path: b"/a/f".to_vec(),
        is_directory: false,
    };
    let dest = path_info(b"/b");
    let observed = Observed {
        same_file: true,
        existing: Some(filectrl::transfer::EntryKind::Other),
        ..nothing_on_disk()
    };
    let message = match validate_paths(&src, &dest, false, true, &observed) {
        Ok(_) => panic!("refused"),
        Err(message) => message,
    };
    assert!(message.ends_with("they are the same file"), "{message}");
}

#[test]
fn an_existing_destination_is_refused_without_overwrite() {
    let src = PathInfo {
        path: b"/a/f".to_vec(),
        is_directory: false,
    };
    let dest = path_info(b"/b");
    let observed = Observed {
        existing: Some(filectrl::transfer::EntryKind::Other),
        ..nothing_on_disk()
    };
    let message = match validate_paths(&src, &dest, false, false, &observed) {
        Ok(_) => panic!("refused"),
        Err(message) => message,
    };
    assert_eq!("Cannot copy \"/a/f\" into \"/b\": it already exists there", message);
    assert!(validate_paths(&src, &dest, false, true, &observed).is_ok());
}

#[test]
fn a_directory_of_the_same_name_is_never_replaced() {
    let src = PathInfo {
        path: b"/a/f".to_vec(),
        is_directory: false,
    };
    let dest = path_info(b"/b");
    let observed = Observed {
        existing: Some(filectrl::transfer::EntryKind::Directory),
        ..nothing_on_disk()
    };
    let message = match validate_paths(&src, &dest, false, true, &observed) {
        Ok(_) => panic!("refused"),
        Err(message) => message,
    };
    assert!(message.ends_with("a directory of that name is already there"), "{message}");
}
