use filectrl::copying::EntryId;
use filectrl::scan::{add_size, Scan, ScanNext};

fn id(inode: u64) -> EntryId {
    EntryId { device: 1, inode }
}

fn entries(list: &[(&str, bool)]) -> Vec<(Vec<u8>, bool)> {
    list.iter()
        .map(|(name, is_dir)| (name.as_bytes().to_vec(), *is_dir))
        .collect()
}

#[test]
fn every_entry_below_the_top_is_visited_once() {
    let mut scan = Scan::new("t", id(1), entries(&[("a", false), ("d", true)]));
    let mut visited = Vec::new();
    loop {
        match scan.next(false) {
            ScanNext::Finished => break,
            ScanNext::Cancelled => unreachable!(),
            ScanNext::Entry => {
                let (_, name, is_dir) = scan.take_entry();
                visited.push(String::from_utf8(name.clone()).unwrap());
                if is_dir {
                    assert!(scan.enter("d", id(2), entries(&[("b", false)])));
                }
            }
            ScanNext::Leave => {
                if let Some((handles, parent)) = scan.leave() {
                    assert_eq!("d", handles);
                    assert_eq!(id(1), parent);
                    scan.reopened::<()>(Ok("t"));
                }
            }
        }
    }
    assert_eq!(vec!["a", "d", "b"], visited);
}

#[test]
fn a_directory_that_leads_back_above_itself_is_not_gone_into() {
    let mut scan = Scan::new("t", id(1), entries(&[("loop", true)]));
    assert_eq!(ScanNext::Entry, scan.next(false));
    scan.take_entry();
    assert!(!scan.enter("t", id(1), entries(&[("loop", true)])));
    assert_eq!(ScanNext::Leave, scan.next(false));
    assert!(scan.leave().is_none());
    assert_eq!(ScanNext::Finished, scan.next(false));
}

#[test]
fn a_parent_that_cannot_be_reopened_ends_the_scan_early() {
    let mut scan = Scan::new("t", id(1), entries(&[("d", true), ("never", false)]));
    scan.take_entry();
    scan.enter("d", id(2), Vec::new());
    assert_eq!(ScanNext::Leave, scan.next(false));
    assert!(scan.leave().is_some());
    scan.reopened(Err("it was moved while it was being scanned"));
    assert_eq!(ScanNext::Finished, scan.next(false));
}

#[test]
fn a_cancel_stops_the_scan() {
    let scan = Scan::new("t", id(1), entries(&[("a", false)]));
    assert_eq!(ScanNext::Cancelled, scan.next(true));
}

#[test]
fn a_total_counts_file_sizes_only() {
    assert_eq!(15, add_size(10, 5, false));
    assert_eq!(10, add_size(10, 5, true));
    assert_eq!(10, add_size(10, -1, false));
    assert_eq!(u64::MAX, add_size(u64::MAX - 1, 5, false));
}
