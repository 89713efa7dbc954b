//! The walk of a tree for a pre-scan (the total a copy or delete shows its
//! progress against): every entry below the top visited once, never through
//! a symlink, a directory that leads back to one above it not gone into, and
//! the walk ended early, with a smaller total, where a parent cannot be
//! reopened.
//!
//! The caller lists and opens the directories the scan asks for, on the
//! handles it holds, and hands back what that gave.

use vstd::prelude::*;

use crate::copying::EntryId;
use crate::walk::{Level, Walk};

verus! {

broadcast use crate::walk::group_level_views;

/// What the scan asks for next.
#[derive(Clone, Copy, Debug, PartialEq, Eq, Structural)]
pub enum ScanNext {
    /// Nothing more: the walk is done, or ended early.
    Finished,
    /// The task was cancelled: stop here.
    Cancelled,
    /// Visit the next entry of the directory worked in (`take_entry`).
    Entry,
    /// Leave the directory worked in, all its entries visited.
    Leave,
}

/// The state of a pre-scan: the directories it is inside, each with its
/// entries (name, and whether it is a directory), how many of each it
/// visited, whether a directory left waits for its parent to be reopened,
/// and whether the walk ended early.
pub struct Scan<H> {
    walk: Walk<H, EntryId, Vec<(Vec<u8>, bool)>>,
    cursors: Vec<usize>,
    pending: bool,
    ended: bool,
}

impl<H> Scan<H> {
    pub closed spec fn levels(&self) -> Seq<Level<H, EntryId, Vec<(Vec<u8>, bool)>>> {
        self.walk.levels()
    }

    pub closed spec fn cursors(&self) -> Seq<usize> {
        self.cursors@
    }

    pub closed spec fn pending(&self) -> bool {
        self.pending
    }

    pub closed spec fn ended(&self) -> bool {
        self.ended
    }

    /// One cursor per directory, none past its entries; the directory
    /// worked in open unless a directory left waits for its parent.
    pub closed spec fn wf(&self) -> bool {
        let levels = self.walk.levels();
        &&& self.cursors@.len() == levels.len()
        &&& forall|i: int|
            0 <= i < levels.len() ==> #[trigger] self.cursors@[i] <= levels[i].payload()@.len()
        &&& self.pending ==> !self.ended && levels.len() >= 1 && levels.last().handles() is None
        &&& (!self.pending && !self.ended) ==> self.walk.ready()
    }

    /// The entries of the directory worked in.
    pub open spec fn entries(&self) -> Seq<(Vec<u8>, bool)> {
        self.levels().last().payload()@
    }

    pub open spec fn cursor(&self) -> usize {
        self.cursors().last()
    }

    /// The scan of the tree below the directory opened as `handles`, which is
    /// `id`, listed as `entries`.
    pub fn new(handles: H, id: EntryId, entries: Vec<(Vec<u8>, bool)>) -> (s: Self)
        ensures
            s.wf(),
            !s.pending(),
            !s.ended(),
            s.levels().len() == 1,
            s.levels()[0].handles() == Some(handles),
            s.levels()[0].id() == id,
            s.levels()[0].payload() == entries,
            s.cursors() == seq![0usize],
    {
        Scan {
            walk: Walk::new(Level::open(handles, id, entries)),
            cursors: vec![0],
            pending: false,
            ended: false,
        }
    }

    /// What to do next, with `cancelled` whether the task was cancelled.
    pub fn next(&self, cancelled: bool) -> (n: ScanNext)
        requires
            self.wf(),
            !self.pending(),
        ensures
            n == (if self.ended() || self.levels().len() == 0 {
                ScanNext::Finished
            } else if cancelled {
                ScanNext::Cancelled
            } else if self.cursor() < self.entries().len() {
                ScanNext::Entry
            } else {
                ScanNext::Leave
            }),
    {
        if self.ended || self.walk.is_empty() {
            return ScanNext::Finished;
        }
        if cancelled {
            return ScanNext::Cancelled;
        }
        let cursor = self.cursors[self.cursors.len() - 1];
        match self.walk.top() {
            Some((_, entries)) => {
                if cursor < entries.len() {
                    ScanNext::Entry
                } else {
                    ScanNext::Leave
                }
            },
            None => ScanNext::Finished,
        }
    }

    /// The directory worked in, and its next entry, which counts as visited:
    /// its name, and whether it is a directory.
    pub fn take_entry(&mut self) -> (r: (&H, Vec<u8>, bool))
        requires
            old(self).wf(),
            !old(self).pending(),
            !old(self).ended(),
            old(self).levels().len() > 0,
            old(self).cursor() < old(self).entries().len(),
        ensures
            final(self).wf(),
            !final(self).pending(),
            !final(self).ended(),
            final(self).levels() == old(self).levels(),
            final(self).cursors() == old(self).cursors().update(
                old(self).cursors().len() - 1,
                (old(self).cursor() + 1) as usize,
            ),
            Some(*r.0) == old(self).levels().last().handles(),
            r.1@ == old(self).entries()[old(self).cursor() as int].0@,
            r.2 == old(self).entries()[old(self).cursor() as int].1,
    {
        let n = self.cursors.len();
        let cursor = self.cursors[n - 1];
        let count = self.walk.top().unwrap().1.len();
        assert(cursor < count);
        self.cursors.set(n - 1, cursor + 1);
        proof {
            let levels = self.walk.levels();
            assert forall|i: int| 0 <= i < levels.len() implies #[trigger] self.cursors@[i]
                <= levels[i].payload()@.len() by {
                if i < levels.len() - 1 {
                    assert(self.cursors@[i] == old(self).cursors@[i]);
                }
            }
        }
        let (handles, entries) = self.walk.top().unwrap();
        (handles, entries[cursor].0.clone(), entries[cursor].1)
    }

    /// The directory entry just visited, opened as `handles`, which is `id`,
    /// and listed as `entries`: the scan goes into it, unless it is one the
    /// walk is already inside (a bind mount of an ancestor), which would
    /// never end. Whether it went in.
    pub fn enter(&mut self, handles: H, id: EntryId, entries: Vec<(Vec<u8>, bool)>) -> (went: bool)
        requires
            old(self).wf(),
            !old(self).pending(),
            !old(self).ended(),
            old(self).levels().len() > 0,
        ensures
            final(self).wf(),
            !final(self).pending(),
            !final(self).ended(),
            went == !exists|i: int| 0 <= i < old(self).levels().len() && (#[trigger] old(self).levels()[i]).id() == id,
            !went ==> final(self).levels() == old(self).levels() && final(self).cursors() == old(self).cursors(),
            went ==> {
                let levels = old(self).levels();
                &&& final(self).levels().drop_last() == levels.update(
                    levels.len() - 1,
                    levels.last().closed(),
                )
                &&& final(self).levels().last().handles() == Some(handles)
                &&& final(self).levels().last().id() == id
                &&& final(self).levels().last().payload() == entries
                &&& final(self).cursors() == old(self).cursors().push(0usize)
            },
    {
        let is_this = |level: &EntryId| -> (r: bool)
            ensures
                r == (*level == id),
            { *level == id };
        if self.walk.holds(is_this) {
            return false;
        }
        let ghost before = self.walk.levels();
        let child = Level::open(handles, id, entries);
        self.walk.descend(child);
        self.cursors.push(0);
        proof {
            crate::walk::pop_after_descend(before, child);
            let levels = self.walk.levels();
            assert forall|i: int| 0 <= i < levels.len() implies #[trigger] self.cursors@[i]
                <= levels[i].payload()@.len() by {
                if i < before.len() - 1 {
                    assert(levels[i] == before[i]);
                    assert(self.cursors@[i] == old(self).cursors@[i]);
                } else if i == before.len() - 1 {
                    assert(levels[i] == before[i].closed());
                    assert(self.cursors@[i] == old(self).cursors@[i]);
                }
            }
        }
        true
    }

    /// Leaves the directory worked in, all its entries visited: the top one
    /// ends the scan (`None`); another hands back its handles and the
    /// identity of the parent to reopen through them (`reopened`).
    pub fn leave(&mut self) -> (r: Option<(H, EntryId)>)
        requires
            old(self).wf(),
            !old(self).pending(),
            !old(self).ended(),
            old(self).levels().len() > 0,
        ensures
            final(self).wf(),
            !final(self).ended(),
            final(self).levels() == old(self).levels().drop_last(),
            final(self).cursors() == old(self).cursors().drop_last(),
            old(self).levels().len() == 1 ==> r is None && !final(self).pending(),
            old(self).levels().len() > 1 ==> (r matches Some((handles, parent)) && Some(handles)
                == old(self).levels().last().handles() && parent == old(self).levels().drop_last().last().id()
                && final(self).pending()),
    {
        let ghost before = self.walk.levels();
        let (handles, _) = self.walk.pop().unwrap();
        let _ = self.cursors.pop();
        proof {
            let levels = self.walk.levels();
            assert forall|i: int| 0 <= i < levels.len() implies #[trigger] self.cursors@[i]
                <= levels[i].payload()@.len() by {
                assert(levels[i] == before[i]);
                assert(self.cursors@[i] == old(self).cursors@[i]);
            }
        }
        match self.walk.deepest_id() {
            None => None,
            Some(parent) => {
                self.pending = true;
                Some((handles, parent))
            },
        }
    }

    /// The parent of the directory just left was reopened (`reopened`), or
    /// could not be, which ends the scan early.
    pub fn reopened<E>(&mut self, reopened: Result<H, E>)
        requires
            old(self).wf(),
            old(self).pending(),
        ensures
            final(self).wf(),
            !final(self).pending(),
            final(self).cursors() == old(self).cursors(),
            match reopened {
                Err(_) => final(self).ended() && final(self).levels() == old(self).levels(),
                Ok(handles) => !final(self).ended() && final(self).levels() == old(self).levels().update(
                    old(self).levels().len() - 1,
                    old(self).levels().last().reopened(handles),
                ),
            },
    {
        self.pending = false;
        match reopened {
            Err(_) => {
                self.ended = true;
            },
            Ok(handles) => {
                let ghost before = self.walk.levels();
                self.walk.restore(handles);
                proof {
                    let levels = self.walk.levels();
                    assert forall|i: int| 0 <= i < levels.len() implies #[trigger] self.cursors@[i]
                        <= levels[i].payload()@.len() by {
                        assert(levels[i].payload() == before[i].payload());
                    }
                }
            },
        }
    }
}

/// What a copy's byte total comes to with an entry that is not a directory:
/// its size added, saturating, unless it is a symlink, which is recreated
/// rather than copied; a size the system reports below zero adds nothing.
pub open spec fn with_size(total: u64, size: i64, is_symlink: bool) -> u64 {
    if is_symlink {
        total
    } else if size < 0 {
        total
    } else if total + size > u64::MAX {
        u64::MAX
    } else {
        (total + size) as u64
    }
}

pub fn add_size(total: u64, size: i64, is_symlink: bool) -> (sum: u64)
    ensures
        sum == with_size(total, size, is_symlink),
{
    if is_symlink || size < 0 {
        total
    } else {
        total.saturating_add(size as u64)
    }
}

} // verus!
