//! The decisions of removing a directory tree like `rm -rf`, post-order: an
//! entry that cannot be removed is recorded and the walk goes on, keeping the
//! directories above it without reporting them; only a parent that cannot be
//! reopened as the one listed ends the walk.
//!
//! The caller makes the system calls the removal asks for (`Next`), on the
//! handles the removal holds, and hands back what they gave.

use vstd::prelude::*;
use vstd::string::StringExecFns;

use crate::copying::{failure_text, pushed, EntryId, IoFailure};
use crate::transfer::{compact, quoted_text};
use crate::walk::{Level, Walk};

verus! {

broadcast use crate::walk::group_level_views;

/// One directory the removal is inside: its name in its parent (`None` for
/// the top), its entries (each name, and whether it is a directory to go
/// into), how many of them were dealt with, and whether one could not be
/// removed.
pub struct Removing {
    pub name: Option<Vec<u8>>,
    pub entries: Vec<(Vec<u8>, bool)>,
    pub next: usize,
    pub incomplete: bool,
}

/// What the removal asks for next.
#[derive(Clone, Copy, Debug, PartialEq, Eq, Structural)]
pub enum Next {
    /// Nothing: the walk is done, or ended.
    Finished,
    /// A delete was cancelled: stop here.
    Cancelled,
    /// Remove the current entry (`current`) in the directory worked in: unlink
    /// it, or open and list it when it is a directory.
    Entry,
    /// The directory worked in is empty of what could be removed: leave it.
    Leave,
    /// Reopen the parent of the directory just left.
    Reopen,
}

/// Why an entry could not be dealt with.
#[derive(Clone, Copy, Debug, PartialEq, Eq, Structural)]
pub enum EntryFailure {
    /// Unlinking it, or an unopenable directory, failed.
    Delete,
    /// Opening or listing the directory failed, and it was not empty.
    ReadDirectory,
}

/// A directory left: the top one, whose handles are given back and which is
/// unlinked from where it was opened when `unlink`; or another, whose handles
/// are given back with the identity of the parent to reopen through them.
pub enum Leaving<H> {
    Top { handles: H, unlink: bool },
    Child { handles: H, parent: EntryId },
}

/// What follows the reopening of a parent: unlink the directory left,
/// `name`, from it; nothing, since that directory was kept; or nothing more
/// at all, since the parent was lost.
pub enum AfterReopen {
    Unlink { name: Vec<u8> },
    Kept,
    Lost,
}

/// The path of the directory the walk is in: `root` with the names of the
/// directories below it pushed on.
pub open spec fn level_path<H>(root: Seq<u8>, levels: Seq<Level<H, EntryId, Removing>>) -> Seq<u8>
    decreases levels.len(),
{
    if levels.len() == 0 {
        root
    } else {
        let front = level_path(root, levels.drop_last());
        match levels.last().payload().name {
            Some(n) => pushed(front, n@),
            None => front,
        }
    }
}

/// What a failure to deal with an entry says.
pub open spec fn failure_prefix(what: EntryFailure) -> Seq<char> {
    match what {
        EntryFailure::Delete => "Failed to delete "@,
        EntryFailure::ReadDirectory => "Failed to read directory "@,
    }
}

/// The refusal of a directory that is one of those above it.
pub open spec fn loop_refusal(path: Seq<u8>) -> Seq<char> {
    "Cannot delete "@ + quoted_text(path) + ": it leads back to a directory above it"@
}

/// A failure to delete `path`.
pub open spec fn delete_failure(path: Seq<u8>, error: IoFailure) -> Seq<char> {
    "Failed to delete "@ + quoted_text(path) + ": "@ + failure_text(error)
}

/// The state of a removal: the path removed, whether it is a delete (counted
/// per entry and cancellable) or the removal of a moved source, the
/// directories it is inside, the errors it recorded, the directory it left
/// whose parent is yet to be reopened (its name and whether it was kept), and
/// whether the walk ended early.
pub struct Removal<H> {
    root: Vec<u8>,
    counts: bool,
    walk: Walk<H, EntryId, Removing>,
    errors: Vec<String>,
    pending: Option<(Vec<u8>, bool)>,
    ended: bool,
}

/// `removing` with one more entry dealt with.
pub open spec fn advanced(removing: Removing) -> Removing {
    Removing { next: (removing.next + 1) as usize, ..removing }
}

/// `removing` marked as keeping an entry it could not remove.
pub open spec fn kept(removing: Removing) -> Removing {
    Removing { incomplete: true, ..removing }
}

impl<H> Removal<H> {
    pub closed spec fn root(&self) -> Seq<u8> {
        self.root@
    }

    pub closed spec fn counts(&self) -> bool {
        self.counts
    }

    pub closed spec fn levels(&self) -> Seq<Level<H, EntryId, Removing>> {
        self.walk.levels()
    }

    pub closed spec fn errors(&self) -> Seq<Seq<char>> {
        self.errors@.map_values(|e: String| e@)
    }

    pub closed spec fn pending(&self) -> Option<(Vec<u8>, bool)> {
        self.pending
    }

    pub closed spec fn ended(&self) -> bool {
        self.ended
    }

    /// The state holds together: a directory left waits for its parent only
    /// while that parent is closed, and otherwise the directory worked in is
    /// open; no directory has dealt with more entries than it has; every
    /// directory below the top has a name.
    pub closed spec fn wf(&self) -> bool {
        let levels = self.walk.levels();
        &&& self.pending is Some ==> !self.ended && levels.len() >= 1 && levels.last().handles() is None
        &&& (self.pending is None && !self.ended) ==> self.walk.ready()
        &&& forall|i: int|
            0 <= i < levels.len() ==> (#[trigger] levels[i]).payload().next <= levels[i].payload().entries@.len()
        &&& forall|i: int| 0 < i < levels.len() ==> (#[trigger] levels[i]).payload().name is Some
    }

    /// The directory worked in.
    pub open spec fn top(&self) -> Removing {
        self.levels().last().payload()
    }

    /// Whether the removal asks for the current entry to be removed.
    pub open spec fn at_entry(&self) -> bool {
        &&& !self.ended()
        &&& self.pending() is None
        &&& self.levels().len() > 0
        &&& self.top().next < self.top().entries@.len()
    }

    /// Whether the removal asks for the directory worked in to be left.
    pub open spec fn at_leave(&self) -> bool {
        &&& !self.ended()
        &&& self.pending() is None
        &&& self.levels().len() > 0
        &&& self.top().next >= self.top().entries@.len()
    }

    /// The path of the current entry.
    pub open spec fn entry_path(&self, name: Seq<u8>) -> Seq<u8> {
        pushed(level_path(self.root(), self.levels()), name)
    }

    /// The removal of the directory tree at `root`, opened (`handles`, `id`)
    /// and listed (`entries`); a delete when `counts`.
    pub fn new(root: Vec<u8>, counts: bool, handles: H, id: EntryId, entries: Vec<(Vec<u8>, bool)>) -> (r:
        Self)
        ensures
            r.wf(),
            r.root() == root@,
            r.counts() == counts,
            r.errors() == Seq::<Seq<char>>::empty(),
            r.pending() is None,
            !r.ended(),
            r.levels().len() == 1,
            r.levels()[0].handles() == Some(handles),
            r.levels()[0].id() == id,
            r.levels()[0].payload() == (Removing { name: None, entries, next: 0, incomplete: false }),
    {
        let level = Level::open(handles, id, Removing { name: None, entries, next: 0, incomplete: false });
        let r = Removal {
            root,
            counts,
            walk: Walk::new(level),
            errors: Vec::new(),
            pending: None,
            ended: false,
        };
        assert(r.errors() =~= Seq::<Seq<char>>::empty());
        r
    }

    /// What to do next, with `cancelled` whether the task was cancelled.
    pub fn next(&self, cancelled: bool) -> (n: Next)
        requires
            self.wf(),
        ensures
            n == (if self.ended() || self.levels().len() == 0 {
                Next::Finished
            } else if self.pending() is Some {
                Next::Reopen
            } else if self.counts() && cancelled {
                Next::Cancelled
            } else if self.top().next < self.top().entries@.len() {
                Next::Entry
            } else {
                Next::Leave
            }),
    {
        if self.ended || self.walk.is_empty() {
            return Next::Finished;
        }
        if self.pending.is_some() {
            return Next::Reopen;
        }
        if self.counts && cancelled {
            return Next::Cancelled;
        }
        match self.walk.top() {
            Some((_, level)) => {
                if level.next < level.entries.len() {
                    Next::Entry
                } else {
                    Next::Leave
                }
            },
            None => Next::Finished,
        }
    }

    /// The directory worked in, and the current entry in it: its name, and
    /// whether it is a directory to go into.
    pub fn current(&self) -> (r: (&H, &[u8], bool))
        requires
            self.wf(),
            self.at_entry(),
        ensures
            Some(*r.0) == self.levels().last().handles(),
            r.1@ == self.top().entries@[self.top().next as int].0@,
            r.2 == self.top().entries@[self.top().next as int].1,
    {
        let (handles, level) = self.walk.top().unwrap();
        let entry = &level.entries[level.next];
        (handles, entry.0.as_slice(), entry.1)
    }

    /// The handles of the directory worked in, once its parent is reopened.
    pub fn top_handles(&self) -> (h: Option<&H>)
        requires
            self.wf(),
        ensures
            (self.pending() is None && !self.ended() && self.levels().len() > 0) ==> (h matches Some(
                handles,
            ) && Some(*handles) == self.levels().last().handles()),
    {
        if self.pending.is_some() || self.ended {
            return None;
        }
        match self.walk.top() {
            Some((handles, _)) => Some(handles),
            None => None,
        }
    }

    /// Deals with the current entry of the directory worked in when
    /// `advance`, and marks the directory kept when `keep`.
    fn change_top(&mut self, advance: bool, keep: bool)
        requires
            old(self).wf(),
            old(self).levels().len() > 0,
            advance ==> old(self).top().next < old(self).top().entries@.len(),
        ensures
            final(self).wf(),
            final(self).levels() == old(self).levels().update(
                old(self).levels().len() - 1,
                old(self).levels().last().with_payload(
                    Removing {
                        next: if advance {
                            (old(self).top().next + 1) as usize
                        } else {
                            old(self).top().next
                        },
                        incomplete: old(self).top().incomplete || keep,
                        ..old(self).top()
                    },
                ),
            ),
            final(self).root() == old(self).root(),
            final(self).counts() == old(self).counts(),
            final(self).errors() == old(self).errors(),
            final(self).pending() == old(self).pending(),
            final(self).ended() == old(self).ended(),
    {
        broadcast use crate::walk::group_level_views;

        let vacant = Removing { name: None, entries: Vec::new(), next: 0, incomplete: false };
        let ghost before = self.walk.levels();
        let taken = self.walk.swap_top_payload(vacant);
        let state = match taken {
            Some(s) => s,
            None => Removing { name: None, entries: Vec::new(), next: 0, incomplete: false },
        };
        let next = if advance && state.next < state.entries.len() {
            state.next + 1
        } else {
            state.next
        };
        let changed = Removing { next, incomplete: state.incomplete || keep, ..state };
        let _ = self.walk.swap_top_payload(changed);
        proof {
            let levels = self.walk.levels();
            crate::walk::lemma_level_equal(
                before.last().with_payload(vacant).with_payload(changed),
                before.last().with_payload(changed),
            );
            assert(levels =~= before.update(before.len() - 1, before.last().with_payload(changed)));
            assert forall|i: int| 0 <= i < levels.len() implies (#[trigger] levels[i]).payload().next
                <= levels[i].payload().entries@.len() by {
                if i < levels.len() - 1 {
                    assert(levels[i] == before[i]);
                }
            }
            assert forall|i: int| 0 < i < levels.len() implies (#[trigger] levels[i]).payload().name is Some by {
                if i < levels.len() - 1 {
                    assert(levels[i] == before[i]);
                }
            }
        }
    }

    /// Records `message`.
    fn record(&mut self, message: String)
        ensures
            final(self).errors() == old(self).errors().push(message@),
            final(self).walk == old(self).walk,
            final(self).root == old(self).root,
            final(self).counts == old(self).counts,
            final(self).pending == old(self).pending,
            final(self).ended == old(self).ended,
    {
        self.errors.push(message);
        assert(final(self).errors() =~= old(self).errors().push(message@));
    }

    /// The current entry was removed. Whether to count it.
    pub fn entry_removed(&mut self) -> (count: bool)
        requires
            old(self).wf(),
            old(self).at_entry(),
        ensures
            final(self).wf(),
            final(self).root() == old(self).root(),
            final(self).counts() == old(self).counts(),
            count == old(self).counts(),
            final(self).levels() == old(self).levels().update(
                old(self).levels().len() - 1,
                old(self).levels().last().with_payload(advanced(old(self).top())),
            ),
            final(self).errors() == old(self).errors(),
            final(self).pending() is None,
            !final(self).ended(),
    {
        self.change_top(true, false);
        self.counts
    }

    /// Dealing with the current entry failed (`what`, `error`): it is
    /// recorded, and the directory worked in is kept.
    pub fn entry_failed(&mut self, what: EntryFailure, error: &IoFailure)
        requires
            old(self).wf(),
            old(self).at_entry(),
        ensures
            final(self).wf(),
            final(self).root() == old(self).root(),
            final(self).counts() == old(self).counts(),
            final(self).levels() == old(self).levels().update(
                old(self).levels().len() - 1,
                old(self).levels().last().with_payload(kept(advanced(old(self).top()))),
            ),
            final(self).errors() == old(self).errors().push(
                failure_prefix(what) + quoted_text(
                    old(self).entry_path(old(self).top().entries@[old(self).top().next as int].0@),
                ) + ": "@ + failure_text(*error),
            ),
            final(self).pending() is None,
            !final(self).ended(),
    {
        let (_, name, _) = self.current();
        let path = self.path_of(name);
        let mut message = String::from_str(
            match what {
                EntryFailure::Delete => "Failed to delete ",
                EntryFailure::ReadDirectory => "Failed to read directory ",
            },
        );
        let quoted = compact(path.as_slice());
        message.append(quoted.as_str());
        message.append(": ");
        let e = error.message();
        message.append(e.as_str());
        self.change_top(true, true);
        self.record(message);
    }

    /// The path of `name` in the directory worked in.
    fn path_of(&self, name: &[u8]) -> (path: Vec<u8>)
        requires
            self.wf(),
        ensures
            path@ == self.entry_path(name@),
    {
        let mut path = self.level_path();
        push_name(&mut path, name);
        path
    }

    /// The path of the directory worked in.
    fn level_path(&self) -> (path: Vec<u8>)
        ensures
            path@ == level_path(self.root(), self.levels()),
    {
        let levels = self.walk.payloads();
        let mut path = self.root.clone();
        let mut i: usize = 0;
        while i < levels.len()
            invariant
                i <= levels@.len(),
                levels@.len() == self.levels().len(),
                forall|j: int| 0 <= j < levels@.len() ==> *levels@[j] == (#[trigger] self.levels()[j]).payload(),
                path@ == level_path(self.root(), self.levels().take(i as int)),
            decreases levels@.len() - i,
        {
            assert(self.levels().take(i + 1).drop_last() =~= self.levels().take(i as int));
            match &levels[i].name {
                Some(n) => push_name(&mut path, n.as_slice()),
                None => {},
            }
            i = i + 1;
        }
        assert(self.levels().take(levels@.len() as int) =~= self.levels());
        path
    }

    /// The current entry, a directory, was opened (`handles`, `id`) and
    /// listed (`entries`). The walk goes into it, unless it is one of the
    /// directories the walk is already inside (a bind mount of an ancestor),
    /// which would never end: that is refused, and the directory worked in
    /// kept.
    pub fn entry_opened(&mut self, handles: H, id: EntryId, entries: Vec<(Vec<u8>, bool)>)
        requires
            old(self).wf(),
            old(self).at_entry(),
        ensures
            final(self).wf(),
            final(self).root() == old(self).root(),
            final(self).counts() == old(self).counts(),
            final(self).pending() is None,
            !final(self).ended(),
            ({
                let levels = old(self).levels();
                let name = old(self).top().entries@[old(self).top().next as int].0;
                let moved = levels.update(
                    levels.len() - 1,
                    levels.last().with_payload(advanced(old(self).top())),
                );
                if exists|i: int| 0 <= i < levels.len() && (#[trigger] levels[i]).id() == id {
                    &&& final(self).levels() == levels.update(
                        levels.len() - 1,
                        levels.last().with_payload(kept(advanced(old(self).top()))),
                    )
                    &&& final(self).errors() == old(self).errors().push(
                        loop_refusal(old(self).entry_path(name@)),
                    )
                } else {
                    &&& final(self).errors() == old(self).errors()
                    &&& final(self).levels() == crate::walk::descended(
                        moved,
                        final(self).levels().last(),
                    )
                    &&& final(self).levels().len() == levels.len() + 1
                    &&& final(self).levels().last().handles() == Some(handles)
                    &&& final(self).levels().last().id() == id
                    &&& final(self).levels().last().payload().name matches Some(n) && n@ == name@
                    &&& final(self).levels().last().payload().entries == entries
                    &&& final(self).levels().last().payload().next == 0
                    &&& !final(self).levels().last().payload().incomplete
                }
            }),
    {
        let ghost levels = self.levels();
        let (_, current, _) = self.current();
        let name = vstd::slice::slice_to_vec(current);
        let path = self.path_of(name.as_slice());
        let is_this = |level: &EntryId| -> (r: bool)
            ensures
                r == (*level == id),
            { *level == id };
        let looped = self.walk.holds(is_this);
        if looped {
            self.change_top(true, true);
            let mut message = String::from_str("Cannot delete ");
            let quoted = compact(path.as_slice());
            message.append(quoted.as_str());
            message.append(": it leads back to a directory above it");
            self.record(message);
        } else {
            self.change_top(true, false);
            let ghost before = self.walk.levels();
            let child = Level::open(
                handles,
                id,
                Removing { name: Some(name), entries, next: 0, incomplete: false },
            );
            self.walk.descend(child);
            proof {
                crate::walk::pop_after_descend(before, child);
                let after = self.walk.levels();
                assert forall|i: int| 0 <= i < after.len() implies (#[trigger] after[i]).payload().next
                    <= after[i].payload().entries@.len() by {
                    if i < after.len() - 1 {
                        assert(after[i].payload() == before[i].payload());
                    }
                }
                assert forall|i: int| 0 < i < after.len() implies (#[trigger] after[i]).payload().name is Some by {
                    if i < after.len() - 1 {
                        assert(after[i].payload() == before[i].payload());
                    }
                }
            }
        }
    }

    /// Leaves the directory worked in, once its entries are dealt with.
    pub fn leave(&mut self) -> (r: Leaving<H>)
        requires
            old(self).wf(),
            old(self).at_leave(),
        ensures
            final(self).wf(),
            final(self).root() == old(self).root(),
            final(self).counts() == old(self).counts(),
            final(self).levels() == old(self).levels().drop_last(),
            final(self).errors() == old(self).errors(),
            !final(self).ended(),
            old(self).levels().len() == 1 ==> (r matches Leaving::Top { handles, unlink } && Some(
                handles,
            ) == old(self).levels().last().handles() && unlink == !old(self).top().incomplete
                && final(self).pending() is None),
            old(self).levels().len() > 1 ==> (r matches Leaving::Child { handles, parent } && Some(
                handles,
            ) == old(self).levels().last().handles() && parent == old(self).levels().drop_last().last().id()
                && (final(self).pending() matches Some((name, incomplete)) && Some(name)
                == old(self).top().name && incomplete == old(self).top().incomplete)),
    {
        let ghost before = self.walk.levels();
        let (handles, state) = self.walk.pop().unwrap();
        proof {
            let after = self.walk.levels();
            assert forall|i: int| 0 <= i < after.len() implies (#[trigger] after[i]).payload().next
                <= after[i].payload().entries@.len() by {
                assert(after[i] == before[i]);
            }
            assert forall|i: int| 0 < i < after.len() implies (#[trigger] after[i]).payload().name is Some by {
                assert(after[i] == before[i]);
            }
        }
        match self.walk.deepest_id() {
            None => Leaving::Top { handles, unlink: !state.incomplete },
            Some(parent) => {
                assert(before.len() > 1);
                assert(before.last().payload().name is Some);
                let name = match state.name {
                    Some(n) => n,
                    None => Vec::new(),
                };
                proof {
                    assert(before[before.len() - 2] == self.walk.levels().last());
                }
                self.pending = Some((name, state.incomplete));
                Leaving::Child { handles, parent }
            },
        }
    }

    /// The parent of the directory just left was reopened (`reopened`: its
    /// handles, or why they were refused). A parent that was not reopened
    /// ends the walk with the failure; otherwise the directory left is to be
    /// unlinked from it, unless it was kept, which keeps the parent too.
    pub fn reopened(&mut self, reopened: Result<H, IoFailure>) -> (r: AfterReopen)
        requires
            old(self).wf(),
            old(self).pending() is Some,
        ensures
            final(self).wf(),
            final(self).root() == old(self).root(),
            final(self).counts() == old(self).counts(),
            final(self).pending() is None,
            ({
                let (name, incomplete) = old(self).pending().unwrap();
                let levels = old(self).levels();
                match reopened {
                    Err(error) => {
                        &&& r is Lost
                        &&& final(self).ended()
                        &&& final(self).levels() == levels
                        &&& final(self).errors() == old(self).errors().push(
                            delete_failure(level_path(old(self).root(), levels), error),
                        )
                    },
                    Ok(handles) => {
                        let open = levels.update(levels.len() - 1, levels.last().reopened(handles));
                        &&& !final(self).ended()
                        &&& final(self).errors() == old(self).errors()
                        &&& incomplete ==> r is Kept && final(self).levels() == open.update(
                            open.len() - 1,
                            open.last().with_payload(kept(open.last().payload())),
                        )
                        &&& !incomplete ==> (r matches AfterReopen::Unlink { name: n } && n == name
                            && final(self).levels() == open)
                    },
                }
            }),
    {
        let pending = self.pending.take();
        let (name, incomplete) = match pending {
            Some(p) => p,
            None => (Vec::new(), false),
        };
        match reopened {
            Err(error) => {
                let path = self.level_path();
                let mut message = String::from_str("Failed to delete ");
                let quoted = compact(path.as_slice());
                message.append(quoted.as_str());
                message.append(": ");
                let e = error.message();
                message.append(e.as_str());
                self.record(message);
                self.ended = true;
                AfterReopen::Lost
            },
            Ok(handles) => {
                let ghost before = self.walk.levels();
                self.walk.restore(handles);
                proof {
                    let after = self.walk.levels();
                    assert forall|i: int| 0 <= i < after.len() implies (#[trigger] after[i]).payload().next
                        <= after[i].payload().entries@.len() by {
                        assert(after[i].payload() == before[i].payload());
                    }
                    assert forall|i: int| 0 < i < after.len() implies (#[trigger] after[i]).payload().name is Some by {
                        assert(after[i].payload() == before[i].payload());
                    }
                }
                if incomplete {
                    self.change_top(false, true);
                    AfterReopen::Kept
                } else {
                    AfterReopen::Unlink { name }
                }
            },
        }
    }

    /// The directory left, `name`, was unlinked from the directory worked in
    /// (`unlinked`). Whether to count it; a failure is recorded, and keeps
    /// the directory worked in.
    pub fn child_removed(&mut self, name: &[u8], unlinked: Result<(), IoFailure>) -> (count: bool)
        requires
            old(self).wf(),
            old(self).pending() is None,
            !old(self).ended(),
            old(self).levels().len() > 0,
        ensures
            final(self).wf(),
            final(self).root() == old(self).root(),
            final(self).counts() == old(self).counts(),
            final(self).pending() is None,
            !final(self).ended(),
            match unlinked {
                Ok(()) => count == old(self).counts() && final(self).levels() == old(self).levels()
                    && final(self).errors() == old(self).errors(),
                Err(error) => !count && final(self).levels() == old(self).levels().update(
                    old(self).levels().len() - 1,
                    old(self).levels().last().with_payload(kept(old(self).top())),
                ) && final(self).errors() == old(self).errors().push(
                    delete_failure(old(self).entry_path(name@), error),
                ),
            },
    {
        match unlinked {
            Ok(()) => self.counts,
            Err(error) => {
                let path = self.path_of(name);
                self.change_top(false, true);
                let mut message = String::from_str("Failed to delete ");
                let quoted = compact(path.as_slice());
                message.append(quoted.as_str());
                message.append(": ");
                let e = error.message();
                message.append(e.as_str());
                self.record(message);
                false
            },
        }
    }

    /// The top directory was unlinked from where it was opened (`unlinked`).
    /// Whether to count it; a failure is recorded.
    pub fn top_removed(&mut self, unlinked: Result<(), IoFailure>) -> (count: bool)
        requires
            old(self).wf(),
        ensures
            final(self).wf(),
            final(self).root() == old(self).root(),
            final(self).counts() == old(self).counts(),
            final(self).levels() == old(self).levels(),
            final(self).pending() == old(self).pending(),
            final(self).ended() == old(self).ended(),
            match unlinked {
                Ok(()) => count == old(self).counts() && final(self).errors() == old(self).errors(),
                Err(error) => !count && final(self).errors() == old(self).errors().push(
                    delete_failure(old(self).root(), error),
                ),
            },
    {
        match unlinked {
            Ok(()) => self.counts,
            Err(error) => {
                let mut message = String::from_str("Failed to delete ");
                let quoted = compact(self.root.as_slice());
                message.append(quoted.as_str());
                message.append(": ");
                let e = error.message();
                message.append(e.as_str());
                self.record(message);
                false
            },
        }
    }

    /// The errors recorded, in order.
    pub fn into_errors(self) -> (errors: Vec<String>)
        ensures
            errors@.map_values(|e: String| e@) == self.errors(),
    {
        self.errors
    }
}

/// Appends `name` to `path` as `pushed` says.
fn push_name(path: &mut Vec<u8>, name: &[u8])
    ensures
        final(path)@ == pushed(old(path)@, name@),
{
    let n = path.len();
    if n != 0 && path[n - 1] != 0x2f {
        path.push(0x2f);
    }
    let ghost head = path@;
    let mut j: usize = 0;
    while j < name.len()
        invariant
            j <= name@.len(),
            path@ == head + name@.take(j as int),
        decreases name@.len() - j,
    {
        path.push(name[j]);
        j = j + 1;
        assert(path@ =~= head + name@.take(j as int));
    }
    assert(name@.take(name@.len() as int) == name@);
}

/// A failure to delete `path`.
pub fn delete_failed(path: &[u8], error: &IoFailure) -> (m: String)
    ensures
        m@ == delete_failure(path@, *error),
{
    let mut m = String::from_str("Failed to delete ");
    let quoted = compact(path);
    m.append(quoted.as_str());
    m.append(": ");
    let e = error.message();
    m.append(e.as_str());
    m
}

/// A failure to open or list the directory `path`.
pub fn read_failed(path: &[u8], error: &IoFailure) -> (m: String)
    ensures
        m@ == "Failed to read directory "@ + quoted_text(path@) + ": "@ + failure_text(*error),
{
    let mut m = String::from_str("Failed to read directory ");
    let quoted = compact(path);
    m.append(quoted.as_str());
    m.append(": ");
    let e = error.message();
    m.append(e.as_str());
    m
}

/// The refusal to remove a path with no final name.
pub fn no_file_name(path: &[u8]) -> (m: String)
    ensures
        m@ == "Cannot delete "@ + quoted_text(path@) + ": path has no file name"@,
{
    let mut m = String::from_str("Cannot delete ");
    let quoted = compact(path);
    m.append(quoted.as_str());
    m.append(": path has no file name");
    m
}

/// Whether a moved source at `path`, found to be `found`, is still the entry
/// the copy read (`copied`); a delete (`None`) removes whatever is there.
pub fn still_copied(path: &[u8], copied: Option<EntryId>, found: EntryId) -> (r: Result<(), String>)
    ensures
        match copied {
            Some(c) if c != found => r matches Err(m) && m@ == "Cannot remove "@ + quoted_text(path@)
                + ": it was replaced after it was copied"@,
            _ => r is Ok,
        },
{
    match copied {
        Some(c) => {
            if c != found {
                Err(crate::copying::replaced_after_copy(path))
            } else {
                Ok(())
            }
        },
        None => Ok(()),
    }
}

/// Whether a delete that could not open the directory its entry is in finds
/// the entry gone, which counts as removed, like `rm -f`.
pub fn gone_before_delete(is_delete: bool, error: &IoFailure) -> (b: bool)
    ensures
        b == (is_delete && (error matches IoFailure::Os { code, .. } && code == 2)),
{
    is_delete && error.is_not_found()
}

} // verus!
