use filectrl::copying::{EntryId, IoFailure};
use filectrl::walk::{checked_parent, checked_parents, is_named, Level, Walk, Walker};

/// A walk over directories named by numbers, whose handles are their names
/// as text and whose state is a count.
fn root() -> Walk<String, u64, u32> {
    Walk::new(Level::open("root".to_string(), 1, 0))
}

#[test]
fn a_new_walk_works_in_its_root() {
    let walk = root();
    assert!(!walk.is_empty());
    let (handles, state) = walk.top().unwrap();
    assert_eq!("root", handles);
    assert_eq!(0, *state);
}

#[test]
fn descending_works_in_the_child_and_closes_the_parent() {
    let mut walk = root();
    walk.descend(Level::open("child".to_string(), 2, 7));
    let (handles, state) = walk.top().unwrap();
    assert_eq!("child", handles);
    assert_eq!(7, *state);
    let (handles, state) = walk.pop().unwrap();
    assert_eq!("child", handles);
    assert_eq!(7, state);
    // The parent stays closed until it is reopened.
    let reopened = walk.reopen(|id| {
        if id == 1 {
            Ok("root again".to_string())
        } else {
            Err("it was moved")
        }
    });
    assert_eq!(Ok(()), reopened);
    let (handles, state) = walk.top().unwrap();
    assert_eq!("root again", handles);
    assert_eq!(0, *state);
}

#[test]
fn a_parent_that_cannot_be_reopened_is_refused() {
    let mut walk = root();
    walk.descend(Level::open("child".to_string(), 2, 0));
    walk.pop().unwrap();
    let refused: Result<(), &str> = walk.reopen(|_| Err("it was moved"));
    assert_eq!(Err("it was moved"), refused);
}

#[test]
fn a_walk_holds_every_directory_on_it() {
    let mut walk = root();
    walk.descend(Level::open("child".to_string(), 2, 0));
    walk.descend(Level::open("grandchild".to_string(), 3, 0));
    assert!(walk.holds(|id| *id == 1));
    assert!(walk.holds(|id| *id == 3));
    assert!(!walk.holds(|id| *id == 4));
    let (_, _, lineage) = walk.top_and_lineage().unwrap();
    assert!(lineage.holds(|id| *id == 1));
    assert!(lineage.holds(|id| *id == 3));
    assert!(!lineage.holds(|id| *id == 4));
}

#[test]
fn the_states_come_root_first() {
    let mut walk = root();
    walk.descend(Level::open("child".to_string(), 2, 5));
    let states: Vec<u32> = walk.payloads().into_iter().copied().collect();
    assert_eq!(vec![0, 5], states);
}

#[test]
fn the_state_of_the_directory_worked_in_can_be_replaced() {
    let mut walk = root();
    assert_eq!(Some(0), walk.swap_top_payload(9));
    assert_eq!(9, *walk.top().unwrap().1);
}

#[test]
fn a_walk_ends_when_its_root_is_left() {
    let mut walk = root();
    walk.pop().unwrap();
    assert!(walk.is_empty());
    assert!(walk.top().is_none());
    assert!(walk.pop().is_none());
    let nothing: Result<(), &str> = walk.reopen(|_| Err("unreachable"));
    assert_eq!(Ok(()), nothing);
}

#[test]
fn a_listing_names_no_dot_entries() {
    assert!(!is_named(&Ok(b".".to_vec())));
    assert!(!is_named(&Ok(b"..".to_vec())));
    assert!(is_named(&Ok(b"...".to_vec())));
    assert!(is_named(&Ok(b".hidden".to_vec())));
    assert!(is_named(&Err(IoFailure::Other("unreadable".to_string()))));
}

/// A parent reopened through `..` is kept only when it is the directory the
/// walk listed; another is refused with the walk's own reason.
#[test]
fn a_reopened_parent_that_is_not_the_one_listed_is_refused() {
    let listed = EntryId { device: 1, inode: 10 };
    let other = EntryId { device: 1, inode: 11 };
    assert_eq!(Ok("parent"), checked_parent(Walker::Delete, "parent", listed, listed).map_err(|_| ()));
    for (walker, reason) in [
        (Walker::Delete, "it was moved while its contents were being deleted"),
        (Walker::Scan, "it was moved while it was being scanned"),
        (Walker::Copy, "it was relocated while it was being read"),
    ] {
        match checked_parent(walker, "parent", other, listed) {
            Err(IoFailure::Other(message)) => assert_eq!(reason, message),
            _ => panic!("{walker:?}: another directory is refused"),
        }
    }
    let pair = (listed, EntryId { device: 2, inode: 20 });
    assert!(checked_parents("both", pair, pair).is_ok());
    match checked_parents("both", (listed, other), pair) {
        Err(IoFailure::Other(message)) => {
            assert_eq!("it was relocated while it was being read", message)
        }
        _ => panic!("a destination parent that changed is refused"),
    }
}
