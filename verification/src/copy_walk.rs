//! The decisions of copying a directory tree: the source and destination are
//! walked in step, each directory's entries copied in turn, and every
//! directory entered finished on the way out (its mode, and for a move its
//! times), also after a cancel, which stops the walk between entries, so none
//! is left with the owner-only mode it was created with.
//!
//! The caller makes the system calls the copy asks for (`CopyNext`), on the
//! handles the walk holds, and hands back what they gave.

use vstd::prelude::*;
use vstd::string::StringExecFns;

use crate::copying::{
    cannot_entry_text, cannot_transfer_text, failure_text, inside_destination, parent_of, pushed,
    raced_in_copy_reason, raced_in_copy_refusal, EntryId, IoFailure, Paths,
};
use crate::transfer::{compact, quoted_text, verb, verb_text};
use crate::walk::{Level, Walk};

verus! {

broadcast use crate::walk::group_level_views;

/// One directory the copy is inside: what the copy keeps of its source to
/// finish it, the mode the umask left on its copy when owner access was added
/// over it, and the names in it to copy.
pub struct Copying<S> {
    pub source: S,
    pub umask_left: Option<u32>,
    pub names: Vec<Vec<u8>>,
}

/// What a tree copy left behind: the errors it recorded, how many entries a
/// standing "skip all" left alone, and whether it ran to the end rather than
/// being cancelled.
pub struct CopyOutcome {
    pub errors: Vec<String>,
    pub skipped: u64,
    pub finished: bool,
}

/// What the copy asks for next.
#[derive(Clone, Copy, Debug, PartialEq, Eq, Structural)]
pub enum CopyNext {
    /// Copy the next entry of the directory worked in (`take_entry`).
    Entry,
    /// Leave the directory worked in, all its entries copied or the copy
    /// cancelled.
    Leave,
    /// Nothing: the walk is done, or ended.
    Finished,
}

/// A directory left, whose handles and state are given back to be finished:
/// the top one, or another, whose parent is to be reopened through them.
pub enum Left<H, I, S> {
    Top { handles: H, level: Copying<S> },
    Child { handles: H, level: Copying<S>, parent: I },
}

/// The state of a tree copy: whether it is the copy a move makes, the
/// directories it is inside with how many names of each it took, the paths
/// of the entry being copied (for messages), whether it was cancelled, the
/// errors it recorded, whether an entry's name is on the paths, whether a
/// directory left waits for its parent to be reopened, whether the walk
/// ended early, the directories it created, whether the paste stands on
/// "skip all", and how many entries that left alone.
pub struct CopyWalk<H, I, S> {
    is_move: bool,
    walk: Walk<H, I, Copying<S>>,
    cursors: Vec<usize>,
    paths: Paths,
    cancelled: bool,
    errors: Vec<String>,
    entry_open: bool,
    pending: bool,
    ended: bool,
    created: Vec<EntryId>,
    skips_raced: bool,
    skipped: u64,
}

/// A failure to read an entry's metadata.
pub open spec fn metadata_failure(path: Seq<u8>, error: IoFailure) -> Seq<char> {
    "Failed to read metadata for "@ + quoted_text(path) + ": "@ + failure_text(error)
}

/// A parent that could not be reopened: the system's failure in the `Failed
/// to` form, the walk's own refusal of a parent that is no longer the one
/// listed in the `Cannot` form.
pub open spec fn lost_parent(is_move: bool, path: Seq<u8>, error: IoFailure) -> Seq<char> {
    (if error is Os {
        "Failed to "@
    } else {
        "Cannot "@
    }) + verb_text(is_move) + " "@ + quoted_text(path) + ": "@ + failure_text(error)
}

impl<H, I: Copy, S> CopyWalk<H, I, S> {
    pub closed spec fn is_move(&self) -> bool {
        self.is_move
    }

    /// Whether the paste's standing answer is "skip all", which skips a
    /// name taken since it was free rather than recording it.
    pub closed spec fn skips_raced(&self) -> bool {
        self.skips_raced
    }

    /// How many entries that standing "skip all" left alone.
    pub closed spec fn skipped(&self) -> nat {
        self.skipped as nat
    }

    pub closed spec fn levels(&self) -> Seq<Level<H, I, Copying<S>>> {
        self.walk.levels()
    }

    /// How many names of each directory were taken, root first.
    pub closed spec fn cursors(&self) -> Seq<usize> {
        self.cursors@
    }

    pub closed spec fn old_path(&self) -> Seq<u8> {
        self.paths.old@
    }

    pub closed spec fn new_path(&self) -> Seq<u8> {
        self.paths.new@
    }

    pub closed spec fn depth(&self) -> nat {
        self.paths.depth as nat
    }

    pub closed spec fn cancelled(&self) -> bool {
        self.cancelled
    }

    pub closed spec fn errors(&self) -> Seq<Seq<char>> {
        self.errors@.map_values(|e: String| e@)
    }

    pub closed spec fn entry_open(&self) -> bool {
        self.entry_open
    }

    pub closed spec fn pending(&self) -> bool {
        self.pending
    }

    pub closed spec fn ended(&self) -> bool {
        self.ended
    }

    /// The directories the copy created.
    pub closed spec fn created(&self) -> Seq<EntryId> {
        self.created@
    }

    /// The state holds together: one cursor per directory, none past its
    /// names; the paths one deeper than the directory worked in while an
    /// entry's name is on them or a directory left waits for its parent; the
    /// directory worked in open unless one does.
    pub closed spec fn wf(&self) -> bool {
        let levels = self.walk.levels();
        &&& self.cursors@.len() == levels.len()
        &&& forall|i: int|
            0 <= i < levels.len() ==> #[trigger] self.cursors@[i] <= levels[i].payload().names@.len()
        &&& !(self.entry_open && self.pending)
        &&& self.pending ==> !self.ended && levels.len() >= 1 && levels.last().handles() is None
            && self.paths.depth == levels.len()
        &&& self.entry_open ==> !self.ended && levels.len() >= 1 && self.paths.depth == levels.len()
        &&& (!self.pending && !self.entry_open && !self.ended && levels.len() >= 1) ==> self.paths.depth
            == levels.len() - 1
        &&& (!self.pending && !self.ended) ==> self.walk.ready()
    }

    /// The directory worked in, and how many of its names were taken.
    pub open spec fn top(&self) -> Copying<S> {
        self.levels().last().payload()
    }

    pub open spec fn cursor(&self) -> usize {
        self.cursors().last()
    }

    /// Whether the copy waits for the next step of its walk.
    pub open spec fn idle(&self) -> bool {
        !self.pending() && !self.entry_open()
    }

    /// The copy of the tree whose top directory is `root`, from `old` to
    /// `new`.
    pub fn new(
        is_move: bool,
        skips_raced: bool,
        root: Level<H, I, Copying<S>>,
        old: Vec<u8>,
        new: Vec<u8>,
    ) -> (c: Self)
        requires
            root.handles() is Some,
        ensures
            c.wf(),
            c.idle(),
            !c.ended(),
            !c.cancelled(),
            c.is_move() == is_move,
            c.skips_raced() == skips_raced,
            c.skipped() == 0,
            c.levels() == seq![root],
            c.cursors() == seq![0usize],
            c.old_path() == old@,
            c.new_path() == new@,
            c.errors() == Seq::<Seq<char>>::empty(),
            c.created() == Seq::<EntryId>::empty(),
    {
        let c = CopyWalk {
            is_move,
            walk: Walk::new(root),
            cursors: vec![0],
            paths: Paths { old, new, depth: 0 },
            cancelled: false,
            errors: Vec::new(),
            entry_open: false,
            pending: false,
            ended: false,
            created: Vec::new(),
            skips_raced,
            skipped: 0,
        };
        assert(c.errors() =~= Seq::<Seq<char>>::empty());
        c
    }

    /// What to do next, with `cancelled` whether the task was cancelled
    /// since: a cancel is kept, and stops the walk between entries, each
    /// directory still left and finished.
    pub fn next(&mut self, cancelled: bool) -> (n: CopyNext)
        requires
            old(self).wf(),
            old(self).idle(),
        ensures
            final(self).wf(),
            final(self).is_move() == old(self).is_move(),
            final(self).skips_raced() == old(self).skips_raced(),
            final(self).skipped() == old(self).skipped(),
            final(self).created() == old(self).created(),
            final(self).cancelled() == (old(self).cancelled() || cancelled),
            final(self).levels() == old(self).levels(),
            final(self).cursors() == old(self).cursors(),
            final(self).errors() == old(self).errors(),
            final(self).old_path() == old(self).old_path(),
            final(self).new_path() == old(self).new_path(),
            final(self).idle(),
            final(self).ended() == old(self).ended(),
            n == (if old(self).ended() || old(self).levels().len() == 0 {
                CopyNext::Finished
            } else if !final(self).cancelled() && old(self).cursor() < old(self).top().names@.len() {
                CopyNext::Entry
            } else {
                CopyNext::Leave
            }),
    {
        self.cancelled = self.cancelled || cancelled;
        if self.ended || self.walk.is_empty() {
            return CopyNext::Finished;
        }
        let n = self.cursors.len();
        let cursor = self.cursors[n - 1];
        match self.walk.top() {
            Some((_, level)) => {
                if !self.cancelled && cursor < level.names.len() {
                    CopyNext::Entry
                } else {
                    CopyNext::Leave
                }
            },
            None => CopyNext::Finished,
        }
    }

    /// Takes the next entry of the directory worked in: its name, which goes
    /// onto the paths of the entry being copied.
    pub fn take_entry(&mut self) -> (name: Vec<u8>)
        requires
            old(self).wf(),
            old(self).idle(),
            !old(self).ended(),
            old(self).levels().len() > 0,
            old(self).cursor() < old(self).top().names@.len(),
        ensures
            final(self).wf(),
            final(self).is_move() == old(self).is_move(),
            final(self).skips_raced() == old(self).skips_raced(),
            final(self).skipped() == old(self).skipped(),
            final(self).created() == old(self).created(),
            final(self).entry_open(),
            !final(self).pending(),
            !final(self).ended(),
            name@ == old(self).top().names@[old(self).cursor() as int]@,
            final(self).levels() == old(self).levels(),
            final(self).cursors() == old(self).cursors().update(
                old(self).cursors().len() - 1,
                (old(self).cursor() + 1) as usize,
            ),
            final(self).old_path() == pushed(old(self).old_path(), name@),
            final(self).new_path() == pushed(old(self).new_path(), name@),
            final(self).errors() == old(self).errors(),
            final(self).cancelled() == old(self).cancelled(),
    {
        let depth = self.walk.depth();
        let n = self.cursors.len();
        let cursor = self.cursors[n - 1];
        let name = match self.walk.top() {
            Some((_, level)) => {
                let count = level.names.len();
                assert(cursor < count);
                level.names[cursor].clone()
            },
            None => Vec::new(),
        };
        self.cursors.set(n - 1, cursor + 1);
        self.paths.push(name.as_slice());
        self.entry_open = true;
        proof {
            let levels = self.walk.levels();
            assert forall|i: int| 0 <= i < levels.len() implies #[trigger] self.cursors@[i]
                <= levels[i].payload().names@.len() by {
                if i < levels.len() - 1 {
                    assert(self.cursors@[i] == old(self).cursors@[i]);
                }
            }
        }
        name
    }

    /// Reading the metadata of the entry taken failed (`error`): it is
    /// recorded, and the copy goes on with the next.
    pub fn stat_failed(&mut self, error: &IoFailure)
        requires
            old(self).wf(),
            old(self).entry_open(),
        ensures
            final(self).wf(),
            final(self).is_move() == old(self).is_move(),
            final(self).skips_raced() == old(self).skips_raced(),
            final(self).skipped() == old(self).skipped(),
            final(self).created() == old(self).created(),
            final(self).idle(),
            !final(self).ended(),
            final(self).levels() == old(self).levels(),
            final(self).cursors() == old(self).cursors(),
            final(self).errors() == old(self).errors().push(
                metadata_failure(old(self).old_path(), *error),
            ),
            final(self).old_path() == parent_of(old(self).old_path()),
            final(self).new_path() == parent_of(old(self).new_path()),
            final(self).cancelled() == old(self).cancelled(),
    {
        let mut message = String::from_str("Failed to read metadata for ");
        let quoted = compact(self.paths.old.as_slice());
        message.append(quoted.as_str());
        message.append(": ");
        let e = error.message();
        message.append(e.as_str());
        self.errors.push(message);
        self.paths.pop();
        self.entry_open = false;
        assert(self.errors() =~= old(self).errors().push(
            metadata_failure(old(self).old_path(), *error),
        ));
    }

    /// The entry taken was dealt with: copied, refused, or skipped (`finished`
    /// unless the copy was cancelled while it was copied).
    pub fn entry_done(&mut self, finished: bool)
        requires
            old(self).wf(),
            old(self).entry_open(),
        ensures
            final(self).wf(),
            final(self).is_move() == old(self).is_move(),
            final(self).skips_raced() == old(self).skips_raced(),
            final(self).skipped() == old(self).skipped(),
            final(self).created() == old(self).created(),
            final(self).idle(),
            !final(self).ended(),
            final(self).levels() == old(self).levels(),
            final(self).cursors() == old(self).cursors(),
            final(self).errors() == old(self).errors(),
            final(self).old_path() == parent_of(old(self).old_path()),
            final(self).new_path() == parent_of(old(self).new_path()),
            final(self).cancelled() == (old(self).cancelled() || !finished),
    {
        if !finished {
            self.cancelled = true;
        }
        self.paths.pop();
        self.entry_open = false;
    }

    /// Records what went wrong with the entry taken, which the copy
    /// otherwise goes on past.
    pub fn record(&mut self, message: String)
        requires
            old(self).wf(),
        ensures
            final(self).wf(),
            final(self).is_move() == old(self).is_move(),
            final(self).skips_raced() == old(self).skips_raced(),
            final(self).skipped() == old(self).skipped(),
            final(self).created() == old(self).created(),
            final(self).errors() == old(self).errors().push(message@),
            final(self).levels() == old(self).levels(),
            final(self).cursors() == old(self).cursors(),
            final(self).old_path() == old(self).old_path(),
            final(self).new_path() == old(self).new_path(),
            final(self).cancelled() == old(self).cancelled(),
            final(self).entry_open() == old(self).entry_open(),
            final(self).pending() == old(self).pending(),
            final(self).ended() == old(self).ended(),
    {
        self.errors.push(message);
        assert(self.errors() =~= old(self).errors().push(message@));
    }

    /// The destination name of the entry taken was found taken since it was
    /// seen free, inside a directory this copy created: nothing decided to
    /// replace what holds it now, so it is never replaced. A standing "skip
    /// all" skips it, which also makes a move keep its source; otherwise it
    /// is recorded.
    pub fn raced(&mut self)
        requires
            old(self).wf(),
            old(self).entry_open(),
            old(self).skipped() < u64::MAX,
        ensures
            final(self).wf(),
            final(self).is_move() == old(self).is_move(),
            final(self).skips_raced() == old(self).skips_raced(),
            final(self).created() == old(self).created(),
            old(self).skips_raced() ==> final(self).skipped() == old(self).skipped() + 1
                && final(self).errors() == old(self).errors(),
            !old(self).skips_raced() ==> final(self).skipped() == old(self).skipped()
                && final(self).errors() == old(self).errors().push(
                cannot_transfer_text(
                    old(self).is_move(),
                    old(self).old_path(),
                    old(self).new_path(),
                    raced_in_copy_reason(),
                ),
            ),
            final(self).levels() == old(self).levels(),
            final(self).cursors() == old(self).cursors(),
            final(self).old_path() == old(self).old_path(),
            final(self).new_path() == old(self).new_path(),
            final(self).cancelled() == old(self).cancelled(),
            final(self).entry_open() == old(self).entry_open(),
            final(self).pending() == old(self).pending(),
            final(self).ended() == old(self).ended(),
    {
        if self.skips_raced {
            self.skipped = self.skipped + 1;
        } else {
            let refusal = raced_in_copy_refusal(
                self.is_move,
                self.paths.old.as_slice(),
                self.paths.new.as_slice(),
            );
            self.errors.push(refusal);
            assert(self.errors() =~= old(self).errors().push(refusal@));
        }
    }

    /// Whether the entry taken, a directory that is `source`, may be copied:
    /// not when the copy itself created it, which a destination swapped for a
    /// link into the source, or a bind mount of it, would otherwise copy into
    /// itself without end. That is refused and recorded.
    pub fn may_enter(&mut self, source: EntryId) -> (may: bool)
        requires
            old(self).wf(),
        ensures
            final(self).wf(),
            final(self).is_move() == old(self).is_move(),
            final(self).skips_raced() == old(self).skips_raced(),
            final(self).skipped() == old(self).skipped(),
            may == !old(self).created().contains(source),
            may ==> final(self).errors() == old(self).errors(),
            !may ==> final(self).errors() == old(self).errors().push(
                cannot_entry_text(
                    old(self).is_move(),
                    old(self).old_path(),
                    "it is inside the destination being written"@,
                ),
            ),
            final(self).levels() == old(self).levels(),
            final(self).cursors() == old(self).cursors(),
            final(self).old_path() == old(self).old_path(),
            final(self).new_path() == old(self).new_path(),
            final(self).cancelled() == old(self).cancelled(),
            final(self).entry_open() == old(self).entry_open(),
            final(self).pending() == old(self).pending(),
            final(self).ended() == old(self).ended(),
            final(self).created() == old(self).created(),
    {
        if self.is_created(source) {
            let message = inside_destination(self.is_move, self.paths.old.as_slice());
            self.errors.push(message);
            assert(self.errors() =~= old(self).errors().push(message@));
            false
        } else {
            true
        }
    }

    /// Whether the copy created the directory `id`.
    fn is_created(&self, id: EntryId) -> (b: bool)
        ensures
            b == self.created().contains(id),
    {
        let mut i: usize = 0;
        while i < self.created.len()
            invariant
                i <= self.created@.len(),
                forall|j: int| 0 <= j < i ==> self.created@[j] != id,
            decreases self.created@.len() - i,
        {
            if self.created[i] == id {
                assert(self.created@[i as int] == id);
                return true;
            }
            i = i + 1;
        }
        false
    }

    /// Records that the copy created the directory `id`.
    pub fn made(&mut self, id: EntryId)
        requires
            old(self).wf(),
        ensures
            final(self).wf(),
            final(self).is_move() == old(self).is_move(),
            final(self).skips_raced() == old(self).skips_raced(),
            final(self).skipped() == old(self).skipped(),
            final(self).created() == old(self).created().push(id),
            final(self).errors() == old(self).errors(),
            final(self).levels() == old(self).levels(),
            final(self).cursors() == old(self).cursors(),
            final(self).old_path() == old(self).old_path(),
            final(self).new_path() == old(self).new_path(),
            final(self).cancelled() == old(self).cancelled(),
            final(self).entry_open() == old(self).entry_open(),
            final(self).pending() == old(self).pending(),
            final(self).ended() == old(self).ended(),
    {
        self.created.push(id);
    }

    /// The entry taken is a directory, made and opened (`child`): the walk
    /// goes into it, its name staying on the paths until it is left.
    pub fn entered(&mut self, child: Level<H, I, Copying<S>>)
        requires
            old(self).wf(),
            old(self).entry_open(),
            child.handles() is Some,
        ensures
            final(self).wf(),
            final(self).is_move() == old(self).is_move(),
            final(self).skips_raced() == old(self).skips_raced(),
            final(self).skipped() == old(self).skipped(),
            final(self).created() == old(self).created(),
            final(self).idle(),
            !final(self).ended(),
            final(self).levels() == crate::walk::descended(old(self).levels(), child),
            final(self).cursors() == old(self).cursors().push(0usize),
            final(self).errors() == old(self).errors(),
            final(self).old_path() == old(self).old_path(),
            final(self).new_path() == old(self).new_path(),
            final(self).cancelled() == old(self).cancelled(),
    {
        let ghost before = self.walk.levels();
        self.walk.descend(child);
        self.cursors.push(0);
        self.entry_open = false;
        proof {
            let levels = self.walk.levels();
            assert(levels.len() == before.len() + 1);
            assert forall|i: int| 0 <= i < levels.len() implies #[trigger] self.cursors@[i]
                <= levels[i].payload().names@.len() by {
                if i < before.len() - 1 {
                    assert(levels[i] == before[i]);
                    assert(self.cursors@[i] == old(self).cursors@[i]);
                } else if i == before.len() - 1 {
                    assert(levels[i] == before[i].closed());
                    assert(self.cursors@[i] == old(self).cursors@[i]);
                }
            }
            assert(levels.last() == child);
        }
    }

    /// Leaves the directory worked in, handing back its handles and state to
    /// be finished: the top one ends the walk; another waits for its parent
    /// to be reopened through them (`reopened`).
    pub fn leave(&mut self) -> (r: Left<H, I, S>)
        requires
            old(self).wf(),
            old(self).idle(),
            !old(self).ended(),
            old(self).levels().len() > 0,
        ensures
            final(self).wf(),
            final(self).is_move() == old(self).is_move(),
            final(self).skips_raced() == old(self).skips_raced(),
            final(self).skipped() == old(self).skipped(),
            final(self).created() == old(self).created(),
            final(self).levels() == old(self).levels().drop_last(),
            final(self).cursors() == old(self).cursors().drop_last(),
            final(self).errors() == old(self).errors(),
            final(self).old_path() == old(self).old_path(),
            final(self).new_path() == old(self).new_path(),
            final(self).cancelled() == old(self).cancelled(),
            !final(self).entry_open(),
            old(self).levels().len() == 1 ==> (r matches Left::Top { handles, level } && Some(handles)
                == old(self).levels().last().handles() && level == old(self).top()
                && !final(self).pending()),
            old(self).levels().len() > 1 ==> (r matches Left::Child { handles, level, parent }
                && Some(handles) == old(self).levels().last().handles() && level == old(self).top()
                && parent == old(self).levels().drop_last().last().id() && final(self).pending()),
    {
        let ghost before = self.walk.levels();
        let (handles, level) = self.walk.pop().unwrap();
        let _ = self.cursors.pop();
        proof {
            let levels = self.walk.levels();
            assert forall|i: int| 0 <= i < levels.len() implies #[trigger] self.cursors@[i]
                <= levels[i].payload().names@.len() by {
                assert(levels[i] == before[i]);
                assert(self.cursors@[i] == old(self).cursors@[i]);
            }
        }
        match self.walk.deepest_id() {
            None => Left::Top { handles, level },
            Some(parent) => {
                self.pending = true;
                Left::Child { handles, level, parent }
            },
        }
    }

    /// The parent of the directory just left was reopened (`reopened`: its
    /// handles, or why they were refused), and the directory left finished.
    /// The name of the directory left comes off the paths; a parent that was
    /// not reopened ends the walk with the failure, since neither it nor any
    /// above it can be reached again.
    pub fn reopened(&mut self, reopened: Result<H, IoFailure>)
        requires
            old(self).wf(),
            old(self).pending(),
        ensures
            final(self).wf(),
            final(self).is_move() == old(self).is_move(),
            final(self).skips_raced() == old(self).skips_raced(),
            final(self).skipped() == old(self).skipped(),
            final(self).created() == old(self).created(),
            final(self).idle(),
            final(self).cursors() == old(self).cursors(),
            final(self).old_path() == parent_of(old(self).old_path()),
            final(self).new_path() == parent_of(old(self).new_path()),
            final(self).cancelled() == old(self).cancelled(),
            match reopened {
                Err(error) => final(self).ended() && final(self).levels() == old(self).levels()
                    && final(self).errors() == old(self).errors().push(
                    lost_parent(old(self).is_move(), parent_of(old(self).old_path()), error),
                ),
                Ok(handles) => !final(self).ended() && final(self).errors() == old(self).errors()
                    && final(self).levels() == old(self).levels().update(
                    old(self).levels().len() - 1,
                    old(self).levels().last().reopened(handles),
                ),
            },
    {
        self.paths.pop();
        self.pending = false;
        match reopened {
            Err(error) => {
                let mut message = String::from_str(
                    if error.raw_os_error().is_some() {
                        "Failed to "
                    } else {
                        "Cannot "
                    },
                );
                message.append(verb(self.is_move));
                message.append(" ");
                let quoted = compact(self.paths.old.as_slice());
                message.append(quoted.as_str());
                message.append(": ");
                let e = error.message();
                message.append(e.as_str());
                self.errors.push(message);
                self.ended = true;
                proof {
                    reveal_strlit("Failed to ");
                    reveal_strlit("Cannot ");
                }
                assert(self.errors() =~= old(self).errors().push(
                    lost_parent(old(self).is_move(), parent_of(old(self).old_path()), error),
                ));
            },
            Ok(handles) => {
                let ghost before = self.walk.levels();
                self.walk.restore(handles);
                proof {
                    let levels = self.walk.levels();
                    assert forall|i: int| 0 <= i < levels.len() implies #[trigger] self.cursors@[i]
                        <= levels[i].payload().names@.len() by {
                        assert(levels[i].payload() == before[i].payload());
                    }
                }
            },
        }
    }

    /// The handles of the directory worked in, while it is open.
    pub fn top_handles(&self) -> (h: Option<&H>)
        requires
            self.wf(),
        ensures
            (!self.pending() && !self.ended() && self.levels().len() > 0) ==> (h matches Some(
                handles,
            ) && Some(*handles) == self.levels().last().handles()),
    {
        if self.pending || self.ended {
            return None;
        }
        match self.walk.top() {
            Some((handles, _)) => Some(handles),
            None => None,
        }
    }

    /// The paths of the entry being copied.
    pub fn paths(&self) -> (p: (&[u8], &[u8]))
        ensures
            p.0@ == self.old_path(),
            p.1@ == self.new_path(),
    {
        (self.paths.old.as_slice(), self.paths.new.as_slice())
    }

    /// What the copy left behind: the errors it recorded, how many entries
    /// a standing "skip all" left alone, and whether it ran to the end rather
    /// than being cancelled.
    pub fn into_outcome(self) -> (r: CopyOutcome)
        ensures
            r.errors@.map_values(|e: String| e@) == self.errors(),
            r.skipped == self.skipped(),
            r.finished == !self.cancelled(),
    {
        CopyOutcome { errors: self.errors, skipped: self.skipped, finished: !self.cancelled }
    }
}

} // verus!
