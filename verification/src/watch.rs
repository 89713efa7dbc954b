//! Which directory is watched for changes, and which events call for a
//! refresh. An event on the watched directory itself (removed, renamed away)
//! leaves the watch on an inode the path may no longer name, so the next
//! watch of that path renews it.

use vstd::prelude::*;

verus! {

/// What kind of change a file-system event reports.
#[derive(Clone, Copy, Debug, PartialEq, Eq, Structural)]
pub enum EventKind {
    Any,
    Access,
    Create,
    Modify,
    Remove,
    Other,
}

/// A file-system event: its kind, whether it says changes went unreported
/// (an overflowed queue), and the paths it names.
pub struct Event {
    pub kind: EventKind,
    pub need_rescan: bool,
    pub paths: Vec<Vec<u8>>,
}

/// Whether an event calls for a refresh: a rescan, or a creation, change or
/// removal. Opening or closing the directory, which listing it does, does
/// not.
pub open spec fn refreshes(kind: EventKind, need_rescan: bool) -> bool {
    need_rescan || kind == EventKind::Create || kind == EventKind::Modify || kind
        == EventKind::Remove
}

/// Whether `event` calls for a refresh.
pub fn event_refreshes(event: &Event) -> (b: bool)
    ensures
        b == refreshes(event.kind, event.need_rescan),
{
    event.need_rescan || match event.kind {
        EventKind::Create | EventKind::Modify | EventKind::Remove => true,
        _ => false,
    }
}

/// How many times its own duration a directory listing waits before the
/// next refresh may start, so a listing that is slow to read (a huge
/// directory) takes at most a fifth of the time while something keeps
/// writing to it.
pub const LISTING_COST_FACTOR: u128 = 4;

/// The longest span a `Duration` holds, in nanoseconds.
pub const DURATION_MAX_NANOS: u128 = 18446744073709551615999999999;

/// The refresh window after a listing that took `listing` nanoseconds:
/// `LISTING_COST_FACTOR` times it, as far as a duration reaches, and never
/// below the `configured` one.
pub open spec fn paced(configured: u128, listing: u128) -> u128 {
    let widened = if listing * LISTING_COST_FACTOR > DURATION_MAX_NANOS {
        DURATION_MAX_NANOS
    } else {
        (listing * LISTING_COST_FACTOR) as u128
    };
    if configured >= widened {
        configured
    } else {
        widened
    }
}

/// The refresh window after a listing that took `listing`, with `configured`
/// the window the watcher was made with; both in nanoseconds.
pub fn paced_window(configured: u128, listing: u128) -> (window: u128)
    requires
        configured <= DURATION_MAX_NANOS,
        listing <= DURATION_MAX_NANOS,
    ensures
        window == paced(configured, listing),
        window >= configured,
        listing * LISTING_COST_FACTOR <= DURATION_MAX_NANOS ==> window >= listing * LISTING_COST_FACTOR,
        window <= DURATION_MAX_NANOS,
{
    let widened = if listing > DURATION_MAX_NANOS / LISTING_COST_FACTOR {
        DURATION_MAX_NANOS
    } else {
        listing * LISTING_COST_FACTOR
    };
    if configured >= widened {
        configured
    } else {
        widened
    }
}

/// The watched directory, and whether an event on it made its watch stale.
/// The directory is recorded only once its watch succeeded (`watched`) and
/// given up before it is unwatched (`begin_watch`, `take_path`), so it never
/// names a directory without an active watch.
pub struct Watched {
    path: Option<Vec<u8>>,
    stale: bool,
}

/// Whether `paths` holds `path`.
pub open spec fn names(paths: Seq<Vec<u8>>, path: Seq<u8>) -> bool {
    exists|i: int| 0 <= i < paths.len() && (#[trigger] paths[i])@ == path
}

/// Whether `watched` is `path`.
pub open spec fn is_watched(watched: Option<Vec<u8>>, path: Seq<u8>) -> bool {
    match watched {
        Some(p) => p@ == path,
        None => false,
    }
}

/// Whether `paths` names the watched directory.
pub open spec fn names_watched(watched: Option<Vec<u8>>, paths: Seq<Vec<u8>>) -> bool {
    match watched {
        Some(p) => names(paths, p@),
        None => false,
    }
}

fn same_path(a: &[u8], b: &[u8]) -> (r: bool)
    ensures
        r == (a@ == b@),
{
    if a.len() != b.len() {
        return false;
    }
    let mut i: usize = 0;
    while i < a.len()
        invariant
            a@.len() == b@.len(),
            i <= a@.len(),
            forall|j: int| 0 <= j < i ==> a@[j] == b@[j],
        decreases a@.len() - i,
    {
        if a[i] != b[i] {
            return false;
        }
        i = i + 1;
    }
    assert(a@ =~= b@);
    true
}

impl Watched {
    /// The directory watched, if any.
    pub closed spec fn watching(&self) -> Option<Vec<u8>> {
        self.path
    }

    /// Whether an event on the watched directory made its watch stale.
    pub closed spec fn stale(&self) -> bool {
        self.stale
    }

    /// Whether the watch is stale.
    pub fn is_stale(&self) -> (b: bool)
        ensures
            b == self.stale(),
    {
        self.stale
    }

    /// Nothing watched.
    pub fn new() -> (w: Watched)
        ensures
            w.watching() is None,
            !w.stale(),
    {
        Watched { path: None, stale: false }
    }

    /// The watched directory.
    pub fn path(&self) -> (p: Option<Vec<u8>>)
        ensures
            p matches Some(v) ==> self.watching() matches Some(w) && v@ == w@,
            p is None <==> self.watching() is None,
    {
        match &self.path {
            Some(p) => Some(p.clone()),
            None => None,
        }
    }

    /// Marks the watch stale when `event` names the watched directory itself.
    pub fn note(&mut self, event: &Event)
        ensures
            final(self).watching() == old(self).watching(),
            final(self).stale() == (old(self).stale() || names_watched(old(self).watching(), event.paths@)),
    {
        let named = match &self.path {
            None => false,
            Some(watched) => {
                let mut found = false;
                let mut i: usize = 0;
                while i < event.paths.len()
                    invariant
                        i <= event.paths@.len(),
                        found == exists|j: int|
                            0 <= j < i && (#[trigger] event.paths@[j])@ == watched@,
                    decreases event.paths@.len() - i,
                {
                    if same_path(event.paths[i].as_slice(), watched.as_slice()) {
                        found = true;
                    }
                    i = i + 1;
                }
                found
            },
        };
        if named {
            self.stale = true;
        }
    }

    /// Whether watching `path` needs a new watch: not when the watch already
    /// on it is not stale. Asking clears the mark of a stale watch on it,
    /// which the new watch renews.
    pub fn needs_watch(&mut self, path: &[u8]) -> (b: bool)
        ensures
            final(self).watching() == old(self).watching(),
            b == !(is_watched(old(self).watching(), path@) && !old(self).stale()),
            final(self).stale() == (old(self).stale() && !is_watched(old(self).watching(), path@)),
    {
        let same = match &self.path {
            Some(p) => same_path(p.as_slice(), path),
            None => false,
        };
        if same {
            let was_stale = self.stale;
            self.stale = false;
            was_stale
        } else {
            true
        }
    }

    /// Gives up the watched directory, which is unwatched: nothing is watched
    /// until a watch succeeds.
    pub fn take_path(&mut self) -> (p: Option<Vec<u8>>)
        ensures
            p == old(self).watching(),
            final(self).watching() is None,
            final(self).stale() == old(self).stale(),
    {
        let p = self.path.take();
        p
    }

    /// The start of watching `path`: nothing to do when the watch already on
    /// it is not stale (`None`); otherwise the watched directory, if any, is
    /// given up, to be unwatched (`Some(old)`), and `path` is to be watched,
    /// then recorded by `watched` once that succeeded.
    pub fn begin_watch(&mut self, path: &[u8]) -> (r: Option<Option<Vec<u8>>>)
        ensures
            is_watched(old(self).watching(), path@) && !old(self).stale() ==> r is None
                && final(self).watching() == old(self).watching() && final(self).stale()
                == old(self).stale(),
            !(is_watched(old(self).watching(), path@) && !old(self).stale()) ==> r == Some(
                old(self).watching(),
            ) && final(self).watching() is None && final(self).stale() == (old(self).stale()
                && !is_watched(old(self).watching(), path@)),
    {
        if self.needs_watch(path) {
            Some(self.take_path())
        } else {
            None
        }
    }

    /// Records a successful watch of `path`: the path is set only then, so it
    /// never names a directory without an active watch.
    pub fn watched(&mut self, path: Vec<u8>)
        ensures
            final(self).watching() == Some(path),
            !final(self).stale(),
    {
        self.stale = false;
        self.path = Some(path);
    }
}

} // verus!
