use filectrl::watch::{event_refreshes, paced_window, Event, EventKind, Watched, DURATION_MAX_NANOS};

fn event(kind: EventKind, path: &str) -> Event {
    Event {
        kind,
        need_rescan: false,
        paths: vec![path.as_bytes().to_vec()],
    }
}

/// An event on the watched directory itself marks the watch stale, and one
/// on an entry inside it does not.
#[test]
fn only_an_event_on_the_directory_itself_marks_the_watch_stale() {
    let mut watched = Watched::new();
    watched.watched(b"/d".to_vec());

    watched.note(&event(EventKind::Remove, "/d/entry"));
    assert!(!watched.is_stale());

    watched.note(&event(EventKind::Remove, "/d"));
    assert!(watched.is_stale());
}

#[test]
fn opening_or_closing_the_directory_does_not_refresh() {
    assert!(!event_refreshes(&event(EventKind::Access, "/d")));
}

#[test]
fn a_rescan_refreshes() {
    let rescan = Event {
        kind: EventKind::Other,
        need_rescan: true,
        paths: Vec::new(),
    };
    assert!(event_refreshes(&rescan));
}

#[test]
fn changes_refresh() {
    for kind in [EventKind::Create, EventKind::Modify, EventKind::Remove] {
        assert!(event_refreshes(&event(kind, "/d/x")));
    }
    assert!(!event_refreshes(&event(EventKind::Any, "/d/x")));
}

#[test]
fn the_watched_directory_keeps_its_watch_until_it_is_stale() {
    let mut watched = Watched::new();
    assert!(watched.needs_watch(b"/d"));
    watched.watched(b"/d".to_vec());
    assert_eq!(Some(b"/d".to_vec()), watched.path());
    assert!(!watched.needs_watch(b"/d"));

    watched.note(&event(EventKind::Remove, "/d"));
    assert!(watched.needs_watch(b"/d"));
    assert!(!watched.is_stale());
}

#[test]
fn a_failed_watch_leaves_nothing_recorded() {
    let mut watched = Watched::new();
    watched.watched(b"/d".to_vec());
    assert!(watched.needs_watch(b"/d/missing"));
    assert_eq!(Some(b"/d".to_vec()), watched.take_path());
    // The watch of "/d/missing" failed: nothing is recorded.
    assert_eq!(None, watched.path());
    assert!(watched.needs_watch(b"/d"));
}

const MILLI: u128 = 1_000_000;

#[test]
fn a_slow_listing_widens_the_refresh_window_and_a_fast_one_keeps_the_configured_one() {
    assert_eq!(4_000 * MILLI, paced_window(500 * MILLI, 1_000 * MILLI));
    assert_eq!(500 * MILLI, paced_window(500 * MILLI, 10 * MILLI));
}

/// Four times a listing too long to count is the longest window there is.
#[test]
fn a_window_widened_past_the_longest_duration_is_the_longest() {
    assert_eq!(DURATION_MAX_NANOS, paced_window(500 * MILLI, DURATION_MAX_NANOS / 2));
}

/// Watching the watched directory again keeps its watch; another directory
/// gives the old one up to be unwatched before it is watched, and nothing is
/// recorded until its watch succeeds.
#[test]
fn a_new_watch_gives_up_the_old_one_first() {
    let mut watched = Watched::new();
    assert_eq!(Some(None), watched.begin_watch(b"/d"));
    watched.watched(b"/d".to_vec());
    assert_eq!(None, watched.begin_watch(b"/d"));
    assert_eq!(Some(Some(b"/d".to_vec())), watched.begin_watch(b"/e"));
    assert_eq!(None, watched.path());
    watched.watched(b"/e".to_vec());
    assert_eq!(Some(b"/e".to_vec()), watched.path());
}
