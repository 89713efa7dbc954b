use std::cell::Cell;
use std::rc::Rc;

use filectrl::copying::{EntryId, IoFailure};
use filectrl::removal::{
    delete_failed, gone_before_delete, no_file_name, read_failed, still_copied, AfterReopen,
    EntryFailure, Leaving, Next, Removal,
};

fn id(inode: u64) -> EntryId {
    EntryId { device: 1, inode }
}

fn denied() -> IoFailure {
    IoFailure::Os {
        code: 13,
        description: "Permission denied".to_string(),
    }
}

fn entries(list: &[(&str, bool)]) -> Vec<(Vec<u8>, bool)> {
    list.iter()
        .map(|(name, is_dir)| (name.as_bytes().to_vec(), *is_dir))
        .collect()
}

/// `/t` holding a file `a` and a directory `sub` holding `b`, every call
/// succeeding: the walk removes `a`, goes into `sub`, removes `b`, leaves
/// `sub` and unlinks it, then leaves `/t` to be unlinked.
#[test]
fn a_tree_is_removed_depth_first() {
    let mut removal = Removal::new(
        b"/t".to_vec(),
        true,
        "t".to_string(),
        id(1),
        entries(&[("a", false), ("sub", true)]),
    );
    let mut counted = 0;

    assert_eq!(Next::Entry, removal.next(false));
    let (dir, name, is_dir) = removal.current();
    assert_eq!(("t", b"a".as_slice(), false), (dir.as_str(), name, is_dir));
    counted += removal.entry_removed() as u32;

    assert_eq!(Next::Entry, removal.next(false));
    assert_eq!(b"sub".as_slice(), removal.current().1);
    removal.entry_opened("sub".to_string(), id(2), entries(&[("b", false)]));
    assert_eq!("sub", removal.current().0);
    counted += removal.entry_removed() as u32;

    assert_eq!(Next::Leave, removal.next(false));
    match removal.leave() {
        Leaving::Child { handles, parent } => {
            assert_eq!("sub", handles);
            assert_eq!(id(1), parent);
        }
        Leaving::Top { .. } => panic!("sub has a parent"),
    }
    assert_eq!(Next::Reopen, removal.next(false));
    match removal.reopened(Ok("t again".to_string())) {
        AfterReopen::Unlink { name } => assert_eq!(b"sub".to_vec(), name),
        _ => panic!("sub is to be unlinked"),
    }
    assert_eq!(Some(&"t again".to_string()), removal.top_handles());
    counted += removal.child_removed(b"sub", Ok(())) as u32;

    assert_eq!(Next::Leave, removal.next(false));
    match removal.leave() {
        Leaving::Top { handles, unlink } => {
            assert_eq!("t again", handles);
            assert!(unlink);
        }
        Leaving::Child { .. } => panic!("the top has no parent here"),
    }
    counted += removal.top_removed(Ok(())) as u32;
    assert_eq!(Next::Finished, removal.next(false));
    assert_eq!(4, counted);
    assert!(removal.into_errors().is_empty());
}

/// An entry that cannot be removed is reported, and keeps every directory
/// above it without a second report.
#[test]
fn an_unremovable_entry_keeps_the_directories_above_it() {
    let mut removal = Removal::new(
        b"/t".to_vec(),
        true,
        "t".to_string(),
        id(1),
        entries(&[("sub", true)]),
    );
    removal.entry_opened("sub".to_string(), id(2), entries(&[("b", false)]));
    removal.entry_failed(EntryFailure::Delete, &denied());
    let _ = removal.leave();
    match removal.reopened(Ok("t".to_string())) {
        AfterReopen::Kept => {}
        _ => panic!("sub is kept"),
    }
    match removal.leave() {
        Leaving::Top { unlink, .. } => assert!(!unlink),
        Leaving::Child { .. } => panic!("the top has no parent here"),
    }
    assert_eq!(Next::Finished, removal.next(false));
    assert_eq!(
        vec!["Failed to delete \"/t/sub/b\": Permission denied (os error 13)".to_string()],
        removal.into_errors()
    );
}

#[test]
fn a_directory_that_leads_back_above_itself_is_refused() {
    let mut removal = Removal::new(
        b"/t".to_vec(),
        true,
        "t".to_string(),
        id(1),
        entries(&[("loop", true)]),
    );
    removal.entry_opened("t".to_string(), id(1), Vec::new());
    assert_eq!(Next::Leave, removal.next(false));
    match removal.leave() {
        Leaving::Top { unlink, .. } => assert!(!unlink),
        Leaving::Child { .. } => panic!("the loop was not entered"),
    }
    assert_eq!(
        vec!["Cannot delete \"/t/loop\": it leads back to a directory above it".to_string()],
        removal.into_errors()
    );
}

#[test]
fn a_parent_that_cannot_be_reopened_ends_the_walk() {
    let mut removal = Removal::new(
        b"/t".to_vec(),
        false,
        "t".to_string(),
        id(1),
        entries(&[("sub", true), ("never", false)]),
    );
    removal.entry_opened("sub".to_string(), id(2), Vec::new());
    let _ = removal.leave();
    let moved = IoFailure::Other("it was moved while its contents were being deleted".to_string());
    assert!(matches!(removal.reopened(Err(moved)), AfterReopen::Lost));
    assert_eq!(Next::Finished, removal.next(false));
    assert_eq!(
        vec![
            "Failed to delete \"/t\": it was moved while its contents were being deleted"
                .to_string()
        ],
        removal.into_errors()
    );
}

#[test]
fn only_a_delete_stops_when_cancelled() {
    let delete = Removal::new(b"/t".to_vec(), true, 0u8, id(1), entries(&[("a", false)]));
    assert_eq!(Next::Cancelled, delete.next(true));
    let moved_source = Removal::new(b"/t".to_vec(), false, 0u8, id(1), entries(&[("a", false)]));
    assert_eq!(Next::Entry, moved_source.next(true));
}

#[test]
fn a_moved_source_is_not_counted() {
    let mut removal = Removal::new(b"/t".to_vec(), false, 0u8, id(1), entries(&[("a", false)]));
    assert!(!removal.entry_removed());
}

#[test]
fn a_directory_that_cannot_be_read_is_reported_by_its_path() {
    let mut removal = Removal::new(b"/t".to_vec(), true, 0u8, id(1), entries(&[("d", true)]));
    removal.entry_failed(EntryFailure::ReadDirectory, &denied());
    assert_eq!(
        vec!["Failed to read directory \"/t/d\": Permission denied (os error 13)".to_string()],
        removal.into_errors()
    );
}

#[test]
fn an_unlink_that_fails_is_reported() {
    let mut removal = Removal::new(b"/t".to_vec(), true, 0u8, id(1), Vec::new());
    let _ = removal.leave();
    assert!(!removal.top_removed(Err(denied())));
    assert_eq!(
        vec!["Failed to delete \"/t\": Permission denied (os error 13)".to_string()],
        removal.into_errors()
    );
}

#[test]
fn the_start_of_a_removal_reads_as_rm_does() {
    assert_eq!("Cannot delete \"/\": path has no file name", no_file_name(b"/"));
    assert_eq!(
        "Failed to delete \"/t\": Permission denied (os error 13)",
        delete_failed(b"/t", &denied())
    );
    assert_eq!(
        "Failed to read directory \"/t\": Permission denied (os error 13)",
        read_failed(b"/t", &denied())
    );
    let gone = IoFailure::Os {
        code: 2,
        description: "No such file or directory".to_string(),
    };
    assert!(gone_before_delete(true, &gone));
    assert!(!gone_before_delete(false, &gone));
    assert!(!gone_before_delete(true, &denied()));
    assert_eq!(Ok(()), still_copied(b"/t", Some(id(1)), id(1)));
    assert_eq!(Ok(()), still_copied(b"/t", None, id(5)));
    assert_eq!(
        Err("Cannot remove \"/t\": it was replaced after it was copied".to_string()),
        still_copied(b"/t", Some(id(1)), id(2))
    );
}

/// A directory handle that counts how many are open at once.
struct Fd {
    open: Rc<Cell<usize>>,
    most: Rc<Cell<usize>>,
}

impl Fd {
    fn new(open: &Rc<Cell<usize>>, most: &Rc<Cell<usize>>) -> Fd {
        open.set(open.get() + 1);
        most.set(most.get().max(open.get()));
        Fd { open: open.clone(), most: most.clone() }
    }
}

impl Drop for Fd {
    fn drop(&mut self) {
        self.open.set(self.open.get() - 1);
    }
}

/// One fd per level would need 200, over the limit of 64: the walk holds
/// only the directory it works in open, and the whole tree is removed.
#[test]
fn remove_path_deletes_a_tree_deeper_than_the_open_file_limit() {
    const DEPTH: u64 = 200;
    let open = Rc::new(Cell::new(0));
    let most = Rc::new(Cell::new(0));
    let mut removal = Removal::new(
        b"/deep".to_vec(),
        true,
        Fd::new(&open, &most),
        id(0),
        entries(&[("d", true)]),
    );
    let mut removed = 0;
    let mut depth: u64 = 0;
    loop {
        match removal.next(false) {
            Next::Entry => {
                let is_dir = removal.current().2;
                if is_dir {
                    depth += 1;
                    let inside = if depth < DEPTH {
                        entries(&[("d", true)])
                    } else {
                        entries(&[("f", false)])
                    };
                    removal.entry_opened(Fd::new(&open, &most), id(depth), inside);
                } else {
                    removed += removal.entry_removed() as u32;
                }
            }
            Next::Leave => match removal.leave() {
                Leaving::Child { handles, .. } => {
                    depth -= 1;
                    drop(handles);
                }
                Leaving::Top { handles, unlink } => {
                    drop(handles);
                    assert!(unlink);
                    removed += removal.top_removed(Ok(())) as u32;
                }
            },
            Next::Reopen => match removal.reopened(Ok(Fd::new(&open, &most))) {
                AfterReopen::Unlink { name } => {
                    removed += removal.child_removed(&name, Ok(())) as u32;
                }
                _ => panic!("every directory is to be unlinked"),
            },
            Next::Finished => break,
            Next::Cancelled => panic!("nothing was cancelled"),
        }
    }
    assert!(removal.into_errors().is_empty());
    assert_eq!(DEPTH as u32 + 2, removed);
    assert!(most.get() <= 2, "{} directories were held open at once", most.get());
}

/// Removes a simulated tree with the walk: `dirs` lists each directory's
/// entries by path, and unlinking any path in `denied_paths` fails. Returns
/// the errors, the running counts sent as progress, and the paths removed.
fn run_removal(
    dirs: &std::collections::HashMap<String, Vec<(&str, bool)>>,
    denied_paths: &[&str],
) -> (Vec<String>, Vec<u32>, Vec<String>) {
    let mut removal = Removal::new(b"/d".to_vec(), true, "/d".to_string(), id(1), entries(&dirs["/d"]));
    let mut counts = Vec::new();
    let mut counted = 0;
    let mut removed = Vec::new();
    let mut left: Option<String> = None;
    let mut next_id = 2;
    loop {
        match removal.next(false) {
            Next::Entry => {
                let (dir, name, is_dir) = removal.current();
                let path = format!("{dir}/{}", String::from_utf8(name.to_vec()).unwrap());
                if is_dir {
                    next_id += 1;
                    removal.entry_opened(path.clone(), id(next_id), entries(&dirs[&path]));
                } else if denied_paths.contains(&path.as_str()) {
                    removal.entry_failed(EntryFailure::Delete, &denied());
                } else if removal.entry_removed() {
                    removed.push(path);
                    counted += 1;
                    counts.push(counted);
                }
            }
            Next::Leave => match removal.leave() {
                Leaving::Child { handles, .. } => left = Some(handles),
                Leaving::Top { handles, unlink } => {
                    if unlink && removal.top_removed(Ok(())) {
                        removed.push(handles);
                        counted += 1;
                        counts.push(counted);
                    }
                }
            },
            Next::Reopen => {
                let child = left.take().unwrap();
                let parent = child[..child.rfind('/').unwrap()].to_string();
                match removal.reopened(Ok(parent.clone())) {
                    AfterReopen::Unlink { name } => {
                        if removal.child_removed(&name, Ok(())) {
                            removed.push(format!("{parent}/{}", String::from_utf8(name).unwrap()));
                            counted += 1;
                            counts.push(counted);
                        }
                    }
                    AfterReopen::Kept => {}
                    AfterReopen::Lost => panic!("no parent is lost here"),
                }
            }
            Next::Finished | Next::Cancelled => break,
        }
    }
    (removal.into_errors(), counts, removed)
}

/// `d` holds directories `a`, `b`, `c`, `x`, `y`, `z`, each holding a file
/// `f`; `d/a/f` cannot be unlinked. The walk goes on past it: every other
/// directory goes, `d` and `d/a` are kept, and only the one failure is
/// reported.
#[test]
fn a_delete_goes_on_past_an_entry_it_cannot_remove() {
    let names = ["a", "b", "c", "x", "y", "z"];
    let mut dirs = std::collections::HashMap::new();
    dirs.insert("/d".to_string(), names.iter().map(|n| (*n, true)).collect::<Vec<_>>());
    for n in names {
        dirs.insert(format!("/d/{n}"), vec![("f", false)]);
    }
    let (errors, _, removed) = run_removal(&dirs, &["/d/a/f"]);
    assert_eq!(
        vec!["Failed to delete \"/d/a/f\": Permission denied (os error 13)".to_string()],
        errors
    );
    for n in ["b", "c", "x", "y", "z"] {
        assert!(removed.contains(&format!("/d/{n}")), "{n}");
        assert!(removed.contains(&format!("/d/{n}/f")), "{n}");
    }
    assert!(!removed.contains(&"/d/a".to_string()));
    assert!(!removed.contains(&"/d/a/f".to_string()));
    assert!(!removed.contains(&"/d".to_string()));
}

/// `doomed` holds `sub/f.txt`, three entries in all: the counts sent begin
/// at 1 and rise by one per entry removed, to 3.
#[test]
fn removals_advance_progress_one_entry_at_a_time() {
    let mut dirs = std::collections::HashMap::new();
    dirs.insert("/d".to_string(), vec![("sub", true)]);
    dirs.insert("/d/sub".to_string(), vec![("f.txt", false)]);
    let (errors, counts, _) = run_removal(&dirs, &[]);
    assert!(errors.is_empty(), "{errors:?}");
    assert_eq!(vec![1, 2, 3], counts);
}
