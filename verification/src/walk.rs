//! The directories a tree walk is inside, from its root down to the one it
//! works in. Only the deepest holds its handles open, so depth is bounded by
//! neither the open-file limit nor the stack: `descend` closes the parent's
//! handles and `reopen` opens them again through the child, refusing any that
//! is not the directory listed.
//!
//! `H` is a directory's handles, `I` what identifies it (so a reopened one
//! can be checked), and `P` the walk's state for it.

use vstd::prelude::*;
use vstd::string::StringExecFns;

use crate::copying::{EntryId, IoFailure};

verus! {

/// One directory of a `Walk`: its handles (`None` while the walk is below
/// it), its identity, and the walk's state for it.
pub struct Level<H, I, P> {
    handles: Option<H>,
    id: I,
    payload: P,
}

impl<H, I, P> Level<H, I, P> {
    pub closed spec fn handles(&self) -> Option<H> {
        self.handles
    }

    pub closed spec fn id(&self) -> I {
        self.id
    }

    pub closed spec fn payload(&self) -> P {
        self.payload
    }

    /// The level as it is once the walk went below it: its handles closed.
    pub closed spec fn closed(&self) -> Self {
        Level { handles: None, id: self.id, payload: self.payload }
    }

    /// The level with `handles` open again.
    pub closed spec fn reopened(&self, handles: H) -> Self {
        Level { handles: Some(handles), id: self.id, payload: self.payload }
    }

    /// The level with its state replaced by `payload`.
    pub closed spec fn with_payload(&self, payload: P) -> Self {
        Level { handles: self.handles, id: self.id, payload }
    }

    /// A directory just opened.
    pub fn open(handles: H, id: I, payload: P) -> (l: Self)
        ensures
            l.handles() == Some(handles),
            l.id() == id,
            l.payload() == payload,
    {
        Level { handles: Some(handles), id, payload }
    }
}

/// The directories a walk is inside, root first.
pub struct Walk<H, I, P> {
    levels: Vec<Level<H, I, P>>,
}

/// Whether only the deepest of `levels` may hold its handles.
pub open spec fn only_deepest_open<H, I, P>(levels: Seq<Level<H, I, P>>) -> bool {
    forall|i: int| 0 <= i < levels.len() - 1 ==> (#[trigger] levels[i]).handles() is None
}

impl<H, I, P> Walk<H, I, P> {
    /// Every level above the deepest has its handles closed.
    #[verifier::type_invariant]
    spec fn well_formed(self) -> bool {
        only_deepest_open(self.levels@)
    }

    /// The levels, root first.
    pub closed spec fn levels(&self) -> Seq<Level<H, I, P>> {
        self.levels@
    }

    /// Whether the directory being worked in holds its handles.
    pub open spec fn ready(&self) -> bool {
        self.levels().len() > 0 ==> self.levels().last().handles() is Some
    }
}

impl<H, I: Copy, P> Walk<H, I, P> {

    /// A walk of the tree below `root`.
    pub fn new(root: Level<H, I, P>) -> (w: Self)
        ensures
            w.levels() == seq![root],
    {
        Walk { levels: vec![root] }
    }

    /// The directory being worked in: its handles and the walk's state for
    /// it.
    pub fn top(&self) -> (r: Option<(&H, &P)>)
        requires
            self.ready(),
        ensures
            self.levels().len() == 0 <==> r is None,
            r matches Some((h, p)) ==> Some(*h) == self.levels().last().handles() && *p
                == self.levels().last().payload(),
    {
        let n = self.levels.len();
        if n == 0 {
            return None;
        }
        let level = &self.levels[n - 1];
        match &level.handles {
            Some(h) => Some((h, &level.payload)),
            None => None,
        }
    }

    /// `top`, with the identities of every directory on the walk.
    pub fn top_and_lineage(&self) -> (r: Option<(&H, &P, Lineage<'_, H, I, P>)>)
        requires
            self.ready(),
        ensures
            self.levels().len() == 0 <==> r is None,
            r matches Some((h, p, lineage)) ==> {
                &&& Some(*h) == self.levels().last().handles()
                &&& *p == self.levels().last().payload()
                &&& lineage.ids() == ids(self.levels())
            },
    {
        let n = self.levels.len();
        if n == 0 {
            return None;
        }
        let level = &self.levels[n - 1];
        let above = vstd::slice::slice_subrange(self.levels.as_slice(), 0, n - 1);
        let lineage = Lineage { above, own: level.id };
        proof {
            assert(ids(above@).push(level.id) =~= ids(self.levels@));
        }
        match &level.handles {
            Some(h) => Some((h, &level.payload, lineage)),
            None => None,
        }
    }

    /// Replaces the walk's state for the directory being worked in, giving
    /// back the state it had.
    pub fn swap_top_payload(&mut self, payload: P) -> (r: Option<P>)
        ensures
            old(self).levels().len() == 0 ==> r is None && final(self).levels() == old(
                self,
            ).levels(),
            old(self).levels().len() > 0 ==> r == Some(old(self).levels().last().payload())
                && final(self).levels() == old(self).levels().update(
                old(self).levels().len() - 1,
                old(self).levels().last().with_payload(payload),
            ),
    {
        proof {
            use_type_invariant(&*self);
        }
        let mut levels: Vec<Level<H, I, P>> = Vec::new();
        std::mem::swap(&mut levels, &mut self.levels);
        match levels.pop() {
            None => {
                self.levels = levels;
                None
            },
            Some(level) => {
                let Level { handles, id, payload: previous } = level;
                levels.push(Level { handles, id, payload });
                assert(levels@ =~= old(self).levels@.update(
                    old(self).levels@.len() - 1,
                    old(self).levels@.last().with_payload(payload),
                ));
                self.levels = levels;
                Some(previous)
            },
        }
    }

    /// Enters `child`; the current directory's handles are closed until
    /// `reopen`.
    pub fn descend(&mut self, child: Level<H, I, P>)
        ensures
            final(self).levels() == descended(old(self).levels(), child),
    {
        proof {
            use_type_invariant(&*self);
        }
        let mut levels: Vec<Level<H, I, P>> = Vec::new();
        std::mem::swap(&mut levels, &mut self.levels);
        match levels.pop() {
            None => {},
            Some(parent) => {
                let Level { handles: _, id, payload } = parent;
                levels.push(Level { handles: None, id, payload });
            },
        }
        levels.push(child);
        assert(levels@ =~= descended(old(self).levels@, child));
        proof {
            descend_keeps_only_deepest_open(old(self).levels@, child);
        }
        self.levels = levels;
    }

    /// Leaves the current directory, returning its handles and state. The
    /// parent stays closed until `reopen`.
    pub fn pop(&mut self) -> (r: Option<(H, P)>)
        requires
            old(self).ready(),
        ensures
            old(self).levels().len() == 0 <==> r is None,
            old(self).levels().len() == 0 ==> final(self).levels() == old(self).levels(),
            r matches Some((h, p)) ==> {
                &&& Some(h) == old(self).levels().last().handles()
                &&& p == old(self).levels().last().payload()
                &&& final(self).levels() == old(self).levels().drop_last()
            },
            final(self).levels().len() > 0 ==> final(self).levels().last().handles() is None,
    {
        proof {
            use_type_invariant(&*self);
        }
        let mut levels: Vec<Level<H, I, P>> = Vec::new();
        std::mem::swap(&mut levels, &mut self.levels);
        let popped = levels.pop();
        assert(only_deepest_open(levels@));
        self.levels = levels;
        match popped {
            None => None,
            Some(level) => {
                let Level { handles, id: _, payload } = level;
                match handles {
                    Some(h) => Some((h, payload)),
                    None => {
                        proof {
                            assert(false);
                        }
                        None
                    },
                }
            },
        }
    }

    /// Reopens the parent's handles through the child just left:
    /// `reopen_parent` is handed the parent's identity and gives the handles
    /// it opened, or the error that refused them.
    pub fn reopen<E, F: FnOnce(I) -> Result<H, E>>(&mut self, reopen_parent: F) -> (r: Result<
        (),
        E,
    >)
        requires
            old(self).levels().len() > 0 ==> reopen_parent.requires(
                (old(self).levels().last().id(),),
            ),
        ensures
            old(self).levels().len() == 0 ==> r is Ok && final(self).levels() == old(
                self,
            ).levels(),
            old(self).levels().len() > 0 ==> {
                let last = old(self).levels().last();
                match r {
                    Ok(()) => exists|h: H|
                        #![trigger last.reopened(h)]
                        reopen_parent.ensures((last.id(),), Ok(h)) && final(self).levels() == old(
                            self,
                        ).levels().update(old(self).levels().len() - 1, last.reopened(h)),
                    Err(e) => reopen_parent.ensures((last.id(),), Err(e)) && final(self).levels()
                        == old(self).levels(),
                }
            },
    {
        proof {
            use_type_invariant(&*self);
        }
        let n = self.levels.len();
        if n == 0 {
            return Ok(());
        }
        let id = self.levels[n - 1].id;
        match reopen_parent(id) {
            Ok(handles) => {
                let ghost h = handles;
                let mut levels: Vec<Level<H, I, P>> = Vec::new();
                std::mem::swap(&mut levels, &mut self.levels);
                match levels.pop() {
                    Some(parent) => {
                        let Level { handles: _, id, payload } = parent;
                        levels.push(Level { handles: Some(handles), id, payload });
                    },
                    None => {},
                }
                assert(levels@ =~= old(self).levels@.update(
                    n - 1,
                    old(self).levels@.last().reopened(h),
                ));
                assert(only_deepest_open(levels@)) by {
                    assert forall|i: int| 0 <= i < levels@.len() - 1 implies (#[trigger] levels@[i]).handles() is None by {
                        assert(levels@[i] == old(self).levels@[i]);
                    }
                }
                self.levels = levels;
                Ok(())
            },
            Err(e) => Err(e),
        }
    }

    /// The identity of the deepest directory on the walk, whatever its
    /// handles.
    pub fn deepest_id(&self) -> (id: Option<I>)
        ensures
            self.levels().len() == 0 <==> id is None,
            id matches Some(i) ==> i == self.levels().last().id(),
    {
        let n = self.levels.len();
        if n == 0 {
            None
        } else {
            Some(self.levels[n - 1].id)
        }
    }

    /// Gives the deepest directory back its `handles`, once they were
    /// reopened.
    pub fn restore(&mut self, handles: H)
        ensures
            old(self).levels().len() == 0 ==> final(self).levels() == old(self).levels(),
            old(self).levels().len() > 0 ==> final(self).levels() == old(self).levels().update(
                old(self).levels().len() - 1,
                old(self).levels().last().reopened(handles),
            ),
    {
        proof {
            use_type_invariant(&*self);
        }
        let mut levels: Vec<Level<H, I, P>> = Vec::new();
        std::mem::swap(&mut levels, &mut self.levels);
        match levels.pop() {
            Some(parent) => {
                let Level { handles: _, id, payload } = parent;
                levels.push(Level { handles: Some(handles), id, payload });
                assert(levels@ =~= old(self).levels@.update(
                    old(self).levels@.len() - 1,
                    old(self).levels@.last().reopened(handles),
                ));
            },
            None => {},
        }
        assert(only_deepest_open(levels@)) by {
            assert forall|i: int| 0 <= i < levels@.len() - 1 implies (#[trigger] levels@[i]).handles() is None by {
                assert(levels@[i] == old(self).levels@[i]);
            }
        }
        self.levels = levels;
    }

    /// How many directories the walk is inside.
    pub fn depth(&self) -> (n: usize)
        ensures
            n == self.levels().len(),
    {
        self.levels.len()
    }

    pub fn is_empty(&self) -> (b: bool)
        ensures
            b <==> self.levels().len() == 0,
    {
        self.levels.len() == 0
    }

    /// Whether a directory already on the walk is one `matches` accepts.
    /// Descending into one (a bind mount of an ancestor) would never end, so
    /// walks refuse it, as `rm` and `cp` do.
    pub fn holds<F: Fn(&I) -> bool>(&self, matches: F) -> (b: bool)
        requires
            forall|i: int| 0 <= i < self.levels().len() ==> matches.requires((&(#[trigger] self.levels()[i]).id(),)),
        ensures
            b ==> exists|i: int|
                0 <= i < self.levels().len() && matches.ensures((&(#[trigger] self.levels()[i]).id(),), true),
            !b ==> forall|i: int|
                0 <= i < self.levels().len() ==> matches.ensures((&(#[trigger] self.levels()[i]).id(),), false),
    {
        let mut i: usize = 0;
        while i < self.levels.len()
            invariant
                i <= self.levels().len(),
                forall|j: int| 0 <= j < self.levels().len() ==> matches.requires((&(#[trigger] self.levels()[j]).id(),)),
                forall|j: int| 0 <= j < i ==> matches.ensures((&(#[trigger] self.levels()[j]).id(),), false),
            decreases self.levels().len() - i,
        {
            assert(self.levels()[i as int].id() == self.levels[i as int].id);
            let found = matches(&self.levels[i].id);
            if found {
                assert(matches.ensures((&self.levels()[i as int].id(),), true));
                return true;
            }
            i = i + 1;
        }
        false
    }

    /// The walk's state for every directory on it, root first.
    pub fn payloads(&self) -> (r: Vec<&P>)
        ensures
            r@.len() == self.levels().len(),
            forall|i: int| 0 <= i < r@.len() ==> *r@[i] == (#[trigger] self.levels()[i]).payload(),
    {
        let mut r: Vec<&P> = Vec::new();
        let mut i: usize = 0;
        while i < self.levels.len()
            invariant
                i <= self.levels@.len(),
                r@.len() == i,
                forall|j: int| 0 <= j < i ==> *r@[j] == (#[trigger] self.levels@[j]).payload,
            decreases self.levels@.len() - i,
        {
            r.push(&self.levels[i].payload);
            i = i + 1;
        }
        r
    }
}

/// Which walk reopens a parent, for the reason it gives when the parent
/// reopened is not the one it listed.
#[derive(Clone, Copy, Debug, PartialEq, Eq, Structural)]
pub enum Walker {
    /// Removing a tree.
    Delete,
    /// Pre-scanning a tree.
    Scan,
    /// Copying a tree.
    Copy,
}

/// Why a walk refuses a reopened parent that is not the directory it listed.
pub open spec fn moved_reason(walker: Walker) -> Seq<char> {
    match walker {
        Walker::Delete => "it was moved while its contents were being deleted"@,
        Walker::Scan => "it was moved while it was being scanned"@,
        Walker::Copy => "it was relocated while it was being read"@,
    }
}

fn moved_text(walker: Walker) -> (t: &'static str)
    ensures
        t@ == moved_reason(walker),
{
    match walker {
        Walker::Delete => "it was moved while its contents were being deleted",
        Walker::Scan => "it was moved while it was being scanned",
        Walker::Copy => "it was relocated while it was being read",
    }
}

/// A parent reopened through `..` (`reopened`, found to be `found`) is the
/// directory the walk listed (`listed`), or it is refused: the directory
/// below it was moved elsewhere while the walk was inside it, and the
/// walk must not carry on in a directory it never listed.
pub fn checked_parent<H>(walker: Walker, reopened: H, found: EntryId, listed: EntryId) -> (r: Result<
    H,
    IoFailure,
>)
    ensures
        found == listed ==> (r matches Ok(h) && h == reopened),
        found != listed ==> (r matches Err(IoFailure::Other(m)) && m@ == moved_reason(walker)),
{
    if found == listed {
        Ok(reopened)
    } else {
        Err(IoFailure::Other(String::from_str(moved_text(walker))))
    }
}

/// The source and destination parents a copy reopened (`reopened`, found to
/// be `found`), each checked against the directory listed on its side, the
/// source's first.
pub fn checked_parents<H>(reopened: H, found: (EntryId, EntryId), listed: (EntryId, EntryId)) -> (r:
    Result<H, IoFailure>)
    ensures
        found == listed ==> (r matches Ok(h) && h == reopened),
        found != listed ==> (r matches Err(IoFailure::Other(m)) && m@ == moved_reason(Walker::Copy)),
{
    if found.0 == listed.0 && found.1 == listed.1 {
        Ok(reopened)
    } else {
        Err(IoFailure::Other(String::from_str(moved_text(Walker::Copy))))
    }
}

/// Whether `name` is `.` or `..`, which a listing holds but names no entry.
pub open spec fn is_dot(name: Seq<u8>) -> bool {
    name == seq![0x2eu8] || name == seq![0x2eu8, 0x2eu8]
}

/// Whether an entry a listing read is one to copy, count or remove: not `.`
/// or `..`. An error is kept, for the caller to report.
pub fn is_named(entry: &Result<Vec<u8>, IoFailure>) -> (b: bool)
    ensures
        b == match entry {
            Ok(name) => !is_dot(name@),
            Err(_) => true,
        },
{
    match entry {
        Err(_) => true,
        Ok(name) => {
            let n = name.len();
            if n == 1 && name[0] == 0x2e {
                assert(name@ =~= seq![0x2eu8]);
                false
            } else if n == 2 && name[0] == 0x2e && name[1] == 0x2e {
                assert(name@ =~= seq![0x2eu8, 0x2eu8]);
                false
            } else {
                assert(!is_dot(name@)) by {
                    if name@ == seq![0x2eu8] {
                        assert(name@[0] == 0x2e);
                    }
                    if name@ == seq![0x2eu8, 0x2eu8] {
                        assert(name@[0] == 0x2e && name@[1] == 0x2e);
                    }
                }
                true
            }
        },
    }
}

/// The identities of `levels`, in order.
pub open spec fn ids<H, I, P>(levels: Seq<Level<H, I, P>>) -> Seq<I> {
    levels.map_values(|l: Level<H, I, P>| l.id())
}

/// `levels` once the walk entered `child`: the current directory closed and
/// `child` below it.
pub open spec fn descended<H, I, P>(levels: Seq<Level<H, I, P>>, child: Level<H, I, P>) -> Seq<
    Level<H, I, P>,
> {
    if levels.len() == 0 {
        seq![child]
    } else {
        levels.update(levels.len() - 1, levels.last().closed()).push(child)
    }
}

/// The identities of every directory on a walk (`Walk::top_and_lineage`):
/// those above the one worked in, and its own.
pub struct Lineage<'a, H, I, P> {
    above: &'a [Level<H, I, P>],
    own: I,
}

impl<'a, H, I: Copy, P> Lineage<'a, H, I, P> {
    /// The identities, root first.
    pub closed spec fn ids(&self) -> Seq<I> {
        ids(self.above@).push(self.own)
    }

    /// Whether one of the directories is one `matches` accepts.
    pub fn holds<F: Fn(&I) -> bool>(&self, matches: F) -> (b: bool)
        requires
            forall|i: int| 0 <= i < self.ids().len() ==> matches.requires((&(#[trigger] self.ids()[i]),)),
        ensures
            b ==> exists|i: int|
                0 <= i < self.ids().len() && matches.ensures((&(#[trigger] self.ids()[i]),), true),
            !b ==> forall|i: int|
                0 <= i < self.ids().len() ==> matches.ensures((&(#[trigger] self.ids()[i]),), false),
    {
        let ghost all = self.ids();
        assert(all[all.len() - 1] == self.own);
        let found = matches(&self.own);
        if found {
            assert(matches.ensures((&self.ids()[all.len() - 1],), true));
            return true;
        }
        let mut i: usize = 0;
        while i < self.above.len()
            invariant
                i <= self.above@.len(),
                all == ids(self.above@).push(self.own),
                forall|j: int| 0 <= j < all.len() ==> matches.requires((&(#[trigger] all[j]),)),
                matches.ensures((&all[all.len() - 1],), false),
                forall|j: int| 0 <= j < i ==> matches.ensures((&(#[trigger] all[j]),), false),
            decreases self.above@.len() - i,
        {
            assert(all[i as int] == self.above@[i as int].id);
            let found = matches(&self.above[i].id);
            if found {
                assert(matches.ensures((&self.ids()[i as int],), true));
                return true;
            }
            i = i + 1;
        }
        assert forall|j: int| 0 <= j < all.len() implies matches.ensures((&(#[trigger] all[j]),), false) by {
            if j == all.len() - 1 {
            } else {
            }
        }
        false
    }
}

/// A level reopened holds the handles given, and keeps its identity and state.
pub broadcast proof fn lemma_reopened<H, I, P>(l: Level<H, I, P>, h: H)
    ensures
        (#[trigger] l.reopened(h)).handles() == Some(h),
        l.reopened(h).id() == l.id(),
        l.reopened(h).payload() == l.payload(),
{
}

/// A level closed holds no handles, and keeps its identity and state.
pub broadcast proof fn lemma_closed<H, I, P>(l: Level<H, I, P>)
    ensures
        (#[trigger] l.closed()).handles() is None,
        l.closed().id() == l.id(),
        l.closed().payload() == l.payload(),
{
}

/// A level given another state keeps its handles and identity.
pub broadcast proof fn lemma_with_payload<H, I, P>(l: Level<H, I, P>, p: P)
    ensures
        (#[trigger] l.with_payload(p)).handles() == l.handles(),
        l.with_payload(p).id() == l.id(),
        l.with_payload(p).payload() == p,
{
}

/// Two levels with the same handles, identity and state are the same.
pub proof fn lemma_level_equal<H, I, P>(a: Level<H, I, P>, b: Level<H, I, P>)
    requires
        a.handles() == b.handles(),
        a.id() == b.id(),
        a.payload() == b.payload(),
    ensures
        a == b,
{
}

pub broadcast group group_level_views {
    lemma_reopened,
    lemma_closed,
    lemma_with_payload,
}

/// Entering a directory and leaving it gives back its handles and state, and
/// the walk above it, with the parent closed until it is reopened.
pub proof fn pop_after_descend<H, I, P>(levels: Seq<Level<H, I, P>>, child: Level<H, I, P>)
    requires
        levels.len() > 0,
    ensures
        descended(levels, child).last() == child,
        descended(levels, child).drop_last() == levels.update(
            levels.len() - 1,
            levels.last().closed(),
        ),
{
    assert(descended(levels, child).drop_last() =~= levels.update(
        levels.len() - 1,
        levels.last().closed(),
    ));
}

/// Entering a directory keeps every directory above the deepest closed.
pub proof fn descend_keeps_only_deepest_open<H, I, P>(
    levels: Seq<Level<H, I, P>>,
    child: Level<H, I, P>,
)
    requires
        only_deepest_open(levels),
    ensures
        only_deepest_open(descended(levels, child)),
{
    let d = descended(levels, child);
    assert forall|i: int| 0 <= i < d.len() - 1 implies (#[trigger] d[i]).handles() is None by {
        if levels.len() > 0 && i == levels.len() - 1 {
            assert(d[i] == levels.last().closed());
        } else {
            assert(d[i] == levels[i]);
        }
    }
}

/// Leaving a directory and reopening its parent leaves only the parent open,
/// so the walk can go on in it.
pub proof fn reopen_after_pop_is_ready<H, I, P>(levels: Seq<Level<H, I, P>>, handles: H)
    requires
        only_deepest_open(levels),
        levels.len() > 1,
    ensures
        only_deepest_open(
            levels.drop_last().update(levels.len() - 2, levels.drop_last().last().reopened(handles)),
        ),
        levels.drop_last().update(
            levels.len() - 2,
            levels.drop_last().last().reopened(handles),
        ).last().handles() == Some(handles),
{
    let r = levels.drop_last().update(levels.len() - 2, levels.drop_last().last().reopened(handles));
    assert forall|i: int| 0 <= i < r.len() - 1 implies (#[trigger] r[i]).handles() is None by {
        assert(r[i] == levels[i]);
    }
}

} // verus!
