//! The decisions a copy makes about what it finds on disk: whether a name
//! still holds the entry an overwrite was granted for, whether a directory
//! found where one was just made can be that directory, and how each failure
//! reads.

use vstd::prelude::*;
use vstd::string::StringExecFns;

use crate::keys::decimal;
use crate::tasks::push_count;
use crate::transfer::{compact, quoted_text, verb, verb_text};

verus! {

/// Which entry held a name when it was looked at (device and inode), and when
/// that entry last changed, so one written since reads as another.
#[derive(Clone, Copy, Debug, PartialEq, Eq, Structural)]
pub struct Seen {
    pub device: u64,
    pub inode: u64,
    pub changed_secs: i64,
    pub changed_nanos: i64,
}

/// Which entry a path names: its device and inode.
#[derive(Clone, Copy, Debug, PartialEq, Eq, Structural)]
pub struct EntryId {
    pub device: u64,
    pub inode: u64,
}

impl Seen {
    /// Which entry was seen.
    pub fn id(&self) -> (id: EntryId)
        ensures
            id == (EntryId { device: self.device, inode: self.inode }),
    {
        EntryId { device: self.device, inode: self.inode }
    }
}

/// What holds a name an overwrite was granted for.
#[derive(Clone, Copy, Debug, PartialEq, Eq, Structural)]
pub enum Holds {
    /// The entry seen, unchanged, which may be replaced.
    Granted,
    /// Nothing: the name is free.
    Free,
    /// Another entry, or the one seen written since, which is not replaced.
    Changed,
}

/// What the name holds now (`found`) relative to the entry `granted`.
pub fn still_holds(granted: Seen, found: Option<Seen>) -> (h: Holds)
    ensures
        found is None ==> h == Holds::Free,
        found == Some(granted) ==> h == Holds::Granted,
        found matches Some(f) && f != granted ==> h == Holds::Changed,
{
    match found {
        None => Holds::Free,
        Some(f) => {
            if f == granted {
                Holds::Granted
            } else {
                Holds::Changed
            }
        },
    }
}

/// How a move by rename ended.
pub enum Renamed {
    Moved,
    /// The granted name is another link to the source, which `rename(2)`
    /// leaves in place while reporting success.
    SameFile,
    /// The name holds another entry than the one granted, or that entry
    /// written since.
    Changed,
    /// A call failed. `kept` when the entry a granted overwrite was to replace
    /// is still at the name.
    Failed { error: IoFailure, kept: bool },
}

/// What a move by rename does once it has looked again at the destination
/// name, where an overwrite was granted (`granted`: the entry it was granted
/// for, and what holds the name now or the failure to look): rename, over
/// what holds the name when `true`, or end as the `Err` says. `source` is the
/// entry the source path names.
pub open spec fn planned_move(
    granted: Option<(Seen, Result<Option<Seen>, IoFailure>)>,
    source: Option<EntryId>,
) -> Result<bool, Renamed> {
    match granted {
        None => Ok(false),
        Some((_, Err(error))) => Err(Renamed::Failed { error, kept: true }),
        Some((g, Ok(found))) => if found matches Some(f) && source == Some(
            EntryId { device: f.device, inode: f.inode },
        ) {
            Err(Renamed::SameFile)
        } else {
            match found {
                None => Ok(false),
                Some(f) => if f == g {
                    Ok(true)
                } else {
                    Err(Renamed::Changed)
                },
            }
        },
    }
}

/// Whether a move by rename replaces what holds the destination name, or how
/// it ends without a rename, as `planned_move` says.
pub fn move_plan(
    granted: Option<(Seen, Result<Option<Seen>, IoFailure>)>,
    source: Option<EntryId>,
) -> (r: Result<bool, Renamed>)
    ensures
        r == planned_move(granted, source),
{
    match granted {
        None => Ok(false),
        Some((_, Err(error))) => Err(Renamed::Failed { error, kept: true }),
        Some((g, Ok(found))) => {
            if let Some(f) = found {
                if let Some(s) = source {
                    if s == f.id() {
                        return Err(Renamed::SameFile);
                    }
                }
            }
            match still_holds(g, found) {
                Holds::Granted => Ok(true),
                Holds::Free => Ok(false),
                Holds::Changed => Err(Renamed::Changed),
            }
        },
    }
}

/// How a move ends after the rename that replaces what holds the name when
/// `replace` (`renamed`).
pub fn move_ended(replace: bool, renamed: Result<(), IoFailure>) -> (r: Renamed)
    ensures
        r == match renamed {
            Ok(()) => Renamed::Moved,
            Err(error) => Renamed::Failed { error, kept: replace },
        },
{
    match renamed {
        Ok(()) => Renamed::Moved,
        Err(error) => Renamed::Failed { error, kept: replace },
    }
}

/// A time as seconds and nanoseconds, ordered as a pair.
pub open spec fn no_later(a: (i64, i64), b: (i64, i64)) -> bool {
    a.0 < b.0 || (a.0 == b.0 && a.1 <= b.1)
}

/// Whether a directory found at the name a directory was just made at can be
/// that directory: `empty`, and born no earlier than `floor` where there is
/// one.
pub fn is_new_empty_directory(born: (i64, i64), floor: Option<(i64, i64)>, empty: bool) -> (b:
    bool)
    ensures
        b == (empty && match floor {
            Some(f) => no_later(f, born),
            None => true,
        }),
{
    if !empty {
        return false;
    }
    match floor {
        None => true,
        Some(f) => f.0 < born.0 || (f.0 == born.0 && f.1 <= born.1),
    }
}

/// The floor a directory made in a parent between two looks at the parent's
/// change time (`before` and `after`) is born no earlier than: `before`,
/// unless the time went backwards across the creation, where it is no change
/// time that bounds anything.
pub fn floor_across(before: (i64, i64), after: (i64, i64)) -> (floor: Option<(i64, i64)>)
    ensures
        floor == (if no_later(before, after) {
            Some(before)
        } else {
            None
        }),
{
    if before.0 < after.0 || (before.0 == after.0 && before.1 <= after.1) {
        Some(before)
    } else {
        None
    }
}

/// What a copy reads of an entry's status: its mode and its change time.
#[derive(Clone, Copy, Debug)]
pub struct Stat {
    pub st_mode: u32,
    pub st_ctime: i64,
    pub st_ctime_nsec: i64,
}

/// When `stat`'s entry last changed, with nanoseconds.
pub fn changed(stat: &Stat) -> (t: (i64, i64))
    ensures
        t == (stat.st_ctime, stat.st_ctime_nsec),
{
    (stat.st_ctime, stat.st_ctime_nsec)
}

/// The file type bits of `mode`.
pub fn type_bits(mode: u32) -> (bits: u32)
    ensures
        bits == mode & 0o170000,
{
    mode & 0o170000
}

/// The permission bits of `mode`, setuid, setgid and sticky included.
pub fn mode_bits(mode: u32) -> (bits: u32)
    ensures
        bits == mode & 0o7777,
{
    mode & 0o7777
}

/// A refusal of the copy's own, which carries no errno.
#[derive(Clone, Copy, Debug, PartialEq, Eq, Structural)]
pub enum Refusal {
    /// A directory the copy was creating proved to be another.
    NotNew,
    /// A staging directory proved to be another.
    StagingReplaced,
}

/// Why a file-system call failed: the system's error, a refusal of the
/// copy's own, or another message with no errno.
pub enum IoFailure {
    Os { code: i32, description: String },
    Refused(Refusal),
    Other(String),
}

/// What a refusal says.
pub open spec fn refusal_text(r: Refusal) -> Seq<char> {
    match r {
        Refusal::NotNew => "the directory it was creating was replaced"@,
        Refusal::StagingReplaced => "its staging directory was replaced"@,
    }
}

/// `n` in decimal, with a sign when it is negative.
pub open spec fn signed_decimal(n: int) -> Seq<char> {
    if n < 0 {
        "-"@ + decimal((-n) as nat)
    } else {
        decimal(n as nat)
    }
}

/// How a failure reads: the system's description with its error number, or
/// the message alone.
pub open spec fn failure_text(e: IoFailure) -> Seq<char> {
    match e {
        IoFailure::Os { code, description } => description@ + " (os error "@ + signed_decimal(
            code as int,
        ) + ")"@,
        IoFailure::Refused(r) => refusal_text(r),
        IoFailure::Other(m) => m@,
    }
}

impl IoFailure {
    /// The system's error number, when the failure has one.
    pub fn raw_os_error(&self) -> (code: Option<i32>)
        ensures
            code == match self {
                IoFailure::Os { code, .. } => Some(*code),
                _ => None,
            },
    {
        match self {
            IoFailure::Os { code, .. } => Some(*code),
            _ => None,
        }
    }

    /// Whether the failure is the system's "no such file or directory".
    pub fn is_not_found(&self) -> (b: bool)
        ensures
            b == (self matches IoFailure::Os { code, .. } && code == 2),
    {
        match self {
            IoFailure::Os { code, .. } => *code == 2,
            _ => false,
        }
    }

    /// How the failure reads.
    pub fn message(&self) -> (m: String)
        ensures
            m@ == failure_text(*self),
    {
        match self {
            IoFailure::Os { code, description } => {
                let mut m = description.clone();
                m.append(" (os error ");
                if *code < 0 {
                    m.append("-");
                    let magnitude: i64 = -(*code as i64);
                    push_count(&mut m, magnitude as u64);
                } else {
                    push_count(&mut m, *code as u64);
                }
                m.append(")");
                m
            },
            IoFailure::Refused(Refusal::NotNew) => String::from_str(
                "the directory it was creating was replaced",
            ),
            IoFailure::Refused(Refusal::StagingReplaced) => String::from_str(
                "its staging directory was replaced",
            ),
            IoFailure::Other(m) => m.clone(),
        }
    }
}

/// The refusal of a directory found at the name the copy was creating one at
/// that proves not to be the one it made.
pub struct NotNew;

impl NotNew {
    pub fn error() -> (e: IoFailure)
        ensures
            e == IoFailure::Refused(Refusal::NotNew),
    {
        IoFailure::Refused(Refusal::NotNew)
    }

    pub fn is(error: &IoFailure) -> (b: bool)
        ensures
            b <==> *error == IoFailure::Refused(Refusal::NotNew),
    {
        match error {
            IoFailure::Refused(Refusal::NotNew) => true,
            _ => false,
        }
    }
}

/// The refusal of a staging directory that proves not to be the one just
/// made: another directory swapped in at its name.
pub struct StagingReplaced;

impl StagingReplaced {
    pub fn error() -> (e: IoFailure)
        ensures
            e == IoFailure::Refused(Refusal::StagingReplaced),
    {
        IoFailure::Refused(Refusal::StagingReplaced)
    }

    pub fn is(error: &IoFailure) -> (b: bool)
        ensures
            b <==> *error == IoFailure::Refused(Refusal::StagingReplaced),
    {
        match error {
            IoFailure::Refused(Refusal::StagingReplaced) => true,
            _ => false,
        }
    }
}

/// The paths of the entry being copied, for messages: the source, the
/// destination, and how far below the top-level entry they are.
pub struct Paths {
    pub old: Vec<u8>,
    pub new: Vec<u8>,
    pub depth: usize,
}

/// `path` with its final name cut off: up to its last `/`, the root staying
/// the root, or nothing when it has no `/`.
pub open spec fn parent_of(path: Seq<u8>) -> Seq<u8>
    decreases path.len(),
{
    if path.len() == 0 {
        path
    } else if path.last() == 0x2f {
        if path.len() == 1 {
            path
        } else {
            path.drop_last()
        }
    } else {
        parent_of(path.drop_last())
    }
}

/// `path` with `name` pushed on: a `/` between them unless `path` is empty or
/// already ends in one.
pub open spec fn pushed(path: Seq<u8>, name: Seq<u8>) -> Seq<u8> {
    if path.len() == 0 || path.last() == 0x2f {
        path + name
    } else {
        path + seq![0x2fu8] + name
    }
}

/// Appends `name` to `path` as `pushed` says.
fn push_name(path: &mut Vec<u8>, name: &[u8])
    ensures
        final(path)@ == pushed(old(path)@, name@),
{
    let n = path.len();
    if n != 0 && path[n - 1] != 0x2f {
        path.push(0x2f);
    }
    let ghost head = path@;
    let mut j: usize = 0;
    while j < name.len()
        invariant
            j <= name@.len(),
            path@ == head + name@.take(j as int),
        decreases name@.len() - j,
    {
        path.push(name[j]);
        j = j + 1;
        assert(path@ =~= head + name@.take(j as int));
    }
    assert(name@.take(name@.len() as int) == name@);
}

/// Cuts `path` back to `parent_of` it.
fn pop_name(path: &mut Vec<u8>)
    ensures
        final(path)@ == parent_of(old(path)@),
{
    let ghost whole = path@;
    let mut n = path.len();
    assert(whole.take(n as int) =~= whole);
    while n > 0 && path[n - 1] != 0x2f
        invariant
            n <= path@.len(),
            path@ == whole,
            parent_of(whole) == parent_of(whole.take(n as int)),
        decreases n,
    {
        assert(whole.take(n as int).drop_last() =~= whole.take(n - 1));
        n = n - 1;
    }
    if n == 0 {
        assert(whole.take(0) =~= Seq::<u8>::empty());
        path.clear();
    } else if n == 1 {
        path.truncate(1);
        assert(path@ =~= whole.take(1));
    } else {
        path.truncate(n - 1);
        assert(path@ =~= whole.take(n as int).drop_last());
    }
}

impl Paths {
    /// Goes down into the entry `name`.
    pub fn push(&mut self, name: &[u8])
        requires
            old(self).depth < usize::MAX,
        ensures
            final(self).old@ == pushed(old(self).old@, name@),
            final(self).new@ == pushed(old(self).new@, name@),
            final(self).depth == old(self).depth + 1,
    {
        push_name(&mut self.old, name);
        push_name(&mut self.new, name);
        self.depth = self.depth + 1;
    }

    /// Goes back up to the parent.
    pub fn pop(&mut self)
        requires
            old(self).depth > 0,
        ensures
            final(self).old@ == parent_of(old(self).old@),
            final(self).new@ == parent_of(old(self).new@),
            final(self).depth == old(self).depth - 1,
    {
        pop_name(&mut self.old);
        pop_name(&mut self.new);
        self.depth = self.depth - 1;
    }
}

/// Whether `name` is one entry's name: not empty, with no `/`.
pub open spec fn is_entry_name(name: Seq<u8>) -> bool {
    name.len() > 0 && forall|i: int| 0 <= i < name.len() ==> name[i] != 0x2f
}

proof fn lemma_parent_of_suffix(head: Seq<u8>, name: Seq<u8>)
    requires
        is_entry_name(name),
    ensures
        parent_of(head + name) == parent_of(head),
    decreases name.len(),
{
    let whole = head + name;
    assert(whole.last() == name.last());
    assert(whole.drop_last() =~= head + name.drop_last());
    if name.len() > 1 {
        lemma_parent_of_suffix(head, name.drop_last());
    } else {
        assert(whole.drop_last() =~= head);
    }
}

/// Going down into an entry and back up again restores the path, where it
/// did not end in a `/` (the root aside).
pub proof fn pop_undoes_push(path: Seq<u8>, name: Seq<u8>)
    requires
        is_entry_name(name),
        path.len() == 0 || path.last() != 0x2f || path.len() == 1,
    ensures
        parent_of(pushed(path, name)) == path,
{
    if path.len() == 0 || path.last() == 0x2f {
        lemma_parent_of_suffix(path, name);
        if path.len() == 0 {
            assert(parent_of(path) == path);
        } else {
            assert(parent_of(path) == path);
        }
    } else {
        let slashed = path + seq![0x2fu8];
        lemma_parent_of_suffix(slashed, name);
        assert(slashed + name == path + seq![0x2fu8] + name);
        assert(slashed.last() == 0x2f);
        assert(slashed.len() > 1);
        assert(slashed.drop_last() =~= path);
    }
}

/// How a transfer that failed reads.
pub open spec fn failed_transfer_text(is_move: bool, old: Seq<u8>, new: Seq<u8>, error: Seq<char>) -> Seq<
    char,
> {
    "Failed to "@ + verb_text(is_move) + " "@ + quoted_text(old) + " to "@ + quoted_text(new) + ": "@
        + error
}

/// The message of a transfer of `old` to `new` that failed with `error`.
pub fn failed_transfer(is_move: bool, old: &[u8], new: &[u8], error: &IoFailure) -> (m: String)
    ensures
        m@ == failed_transfer_text(is_move, old@, new@, failure_text(*error)),
{
    let mut m = String::from_str("Failed to ");
    m.append(verb(is_move));
    m.append(" ");
    let o = compact(old);
    m.append(o.as_str());
    m.append(" to ");
    let n = compact(new);
    m.append(n.as_str());
    m.append(": ");
    let e = error.message();
    m.append(e.as_str());
    m
}

/// A refusal of the copy's own of the transfer of `old` to `new`.
pub open spec fn cannot_transfer_text(is_move: bool, old: Seq<u8>, new: Seq<u8>, why: Seq<char>) -> Seq<
    char,
> {
    "Cannot "@ + verb_text(is_move) + " "@ + quoted_text(old) + " to "@ + quoted_text(new) + ": "@
        + why
}

fn cannot_transfer(is_move: bool, old: &[u8], new: &[u8], why: &str) -> (m: String)
    ensures
        m@ == cannot_transfer_text(is_move, old@, new@, why@),
{
    let mut m = String::from_str("Cannot ");
    m.append(verb(is_move));
    m.append(" ");
    let o = compact(old);
    m.append(o.as_str());
    m.append(" to ");
    let n = compact(new);
    m.append(n.as_str());
    m.append(": ");
    m.append(why);
    m
}

/// What a failure of an entry that was to replace another adds: that the
/// entry at `new` was left as it was.
pub open spec fn not_replaced_text(new: Seq<u8>) -> Seq<char> {
    "; "@ + quoted_text(new) + " was not replaced"@
}

/// The note that the entry at `new` was not replaced.
pub fn not_replaced(new: &[u8]) -> (m: String)
    ensures
        m@ == not_replaced_text(new@),
{
    let mut m = String::from_str("; ");
    let n = compact(new);
    m.append(n.as_str());
    m.append(" was not replaced");
    m
}

/// Why a name taken since the paste checked it is refused at the top level.
pub open spec fn raced_reason() -> Seq<char> {
    "another entry took that name after the paste checked it"@
}

/// Why a name taken inside a directory the copy created is refused.
pub open spec fn raced_in_copy_reason() -> Seq<char> {
    "the name is already taken there, by another entry or one the destination treats as the same"@
}

/// The refusal of the top-level entry `old` whose destination `new` another
/// entry took since the paste checked it.
pub fn raced_refusal(is_move: bool, old: &[u8], new: &[u8]) -> (m: String)
    ensures
        m@ == cannot_transfer_text(is_move, old@, new@, raced_reason()),
{
    cannot_transfer(is_move, old, new, "another entry took that name after the paste checked it")
}

/// The refusal of an entry `old` inside a directory the copy created, whose
/// destination `new` is taken there.
pub fn raced_in_copy_refusal(is_move: bool, old: &[u8], new: &[u8]) -> (m: String)
    ensures
        m@ == cannot_transfer_text(is_move, old@, new@, raced_in_copy_reason()),
{
    cannot_transfer(
        is_move,
        old,
        new,
        "the name is already taken there, by another entry or one the destination treats as the same",
    )
}

/// How an error making the staging directory reads: the copy's own refusal
/// (no errno) in the `Cannot` form, anything else as the transfer that
/// failed.
pub fn refused_or_failed(is_move: bool, paths: &Paths, error: &IoFailure) -> (m: String)
    ensures
        m@ == if error is Os {
            failed_transfer_text(is_move, paths.old@, paths.new@, failure_text(*error))
        } else {
            cannot_transfer_text(is_move, paths.old@, paths.new@, failure_text(*error))
        },
{
    if error.raw_os_error().is_none() {
        let why = error.message();
        cannot_transfer(is_move, paths.old.as_slice(), paths.new.as_slice(), why.as_str())
    } else {
        failed_transfer(is_move, paths.old.as_slice(), paths.new.as_slice(), error)
    }
}

/// The refusal of an entry whose staging directory holds something the copy
/// did not put there, which is neither landed nor removed.
pub fn staging_changed(is_move: bool, paths: &Paths) -> (m: String)
    ensures
        m@ == cannot_transfer_text(
            is_move,
            paths.old@,
            paths.new@,
            "its staging directory was changed"@,
        ),
{
    cannot_transfer(
        is_move,
        paths.old.as_slice(),
        paths.new.as_slice(),
        "its staging directory was changed",
    )
}

/// What a staging directory at `path` that could not be removed says.
pub fn staging_left_behind(path: &[u8], error: &IoFailure) -> (m: String)
    ensures
        m@ == "Failed to remove the staging directory "@ + quoted_text(path@) + ": "@
            + failure_text(*error),
{
    let mut m = String::from_str("Failed to remove the staging directory ");
    let p = compact(path);
    m.append(p.as_str());
    m.append(": ");
    let e = error.message();
    m.append(e.as_str());
    m
}

/// The refusal to remove a moved source that another entry took the place of
/// after it was copied.
pub fn replaced_after_copy(path: &[u8]) -> (m: String)
    ensures
        m@ == "Cannot remove "@ + quoted_text(path@) + ": it was replaced after it was copied"@,
{
    let mut m = String::from_str("Cannot remove ");
    let p = compact(path);
    m.append(p.as_str());
    m.append(": it was replaced after it was copied");
    m
}

/// The refusal of a copy's own of the entry `old` (`Cannot <verb> <old>: why`).
pub open spec fn cannot_entry_text(is_move: bool, old: Seq<u8>, why: Seq<char>) -> Seq<char> {
    "Cannot "@ + verb_text(is_move) + " "@ + quoted_text(old) + ": "@ + why
}

pub(crate) fn cannot_entry(is_move: bool, old: &[u8], why: &str) -> (m: String)
    ensures
        m@ == cannot_entry_text(is_move, old@, why@),
{
    let mut m = String::from_str("Cannot ");
    m.append(verb(is_move));
    m.append(" ");
    let o = compact(old);
    m.append(o.as_str());
    m.append(": ");
    m.append(why);
    m
}

/// The refusal of a source directory the copy itself created: a destination
/// swapped for a link into the source, or a bind mount of it, would otherwise
/// copy the copy into itself without end.
pub fn inside_destination(is_move: bool, old: &[u8]) -> (m: String)
    ensures
        m@ == cannot_entry_text(is_move, old@, "it is inside the destination being written"@),
{
    cannot_entry(is_move, old, "it is inside the destination being written")
}

/// The refusal of a source directory that proves, once opened, to be another
/// than the one listed.
pub fn replaced_while_read(is_move: bool, old: &[u8]) -> (m: String)
    ensures
        m@ == cannot_entry_text(is_move, old@, "it was replaced while it was being read"@),
{
    cannot_entry(is_move, old, "it was replaced while it was being read")
}

/// What a destination directory that could not be made and opened says:
/// another directory swapped in at its name is the copy's own refusal, in the
/// `Cannot` form; anything else is a failure to create it.
pub fn directory_refusal(is_move: bool, paths: &Paths, error: &IoFailure) -> (m: String)
    ensures
        m@ == if *error == IoFailure::Refused(Refusal::NotNew) {
            cannot_transfer_text(is_move, paths.old@, paths.new@, failure_text(*error))
        } else {
            "Failed to create directory "@ + quoted_text(paths.new@) + ": "@ + failure_text(*error)
        },
{
    if NotNew::is(error) {
        let why = error.message();
        cannot_transfer(is_move, paths.old.as_slice(), paths.new.as_slice(), why.as_str())
    } else {
        let mut m = String::from_str("Failed to create directory ");
        let n = compact(paths.new.as_slice());
        m.append(n.as_str());
        m.append(": ");
        let e = error.message();
        m.append(e.as_str());
        m
    }
}

/// The failure to read again the entry an operation (`operation`, such as
/// "copy" or "delete") was started for.
pub fn restat_failed(operation: &str, path: &[u8], error: &IoFailure) -> (m: String)
    ensures
        m@ == "Failed to "@ + operation@ + " "@ + quoted_text(path@) + ": "@ + failure_text(*error),
{
    let mut m = String::from_str("Failed to ");
    m.append(operation);
    m.append(" ");
    let p = compact(path);
    m.append(p.as_str());
    m.append(": ");
    let e = error.message();
    m.append(e.as_str());
    m
}

/// The name of a staging directory for the process `pid` and the call
/// `serial`.
pub open spec fn staging_name_text(pid: u32, serial: u64) -> Seq<char> {
    ".filectrl-"@ + decimal(pid as nat) + "-"@ + decimal(serial as nat)
}

/// The name of a staging directory: hidden, and unique to the process
/// (`pid`) and to the call (`serial`).
pub fn staging_name(pid: u32, serial: u64) -> (name: String)
    ensures
        name@ == staging_name_text(pid, serial),
{
    let mut name = String::from_str(".filectrl-");
    push_count(&mut name, pid as u64);
    name.append("-");
    push_count(&mut name, serial);
    name
}

/// Two calls of one process never name their staging directories alike.
pub proof fn staging_names_differ_by_call(pid: u32, a: u64, b: u64)
    requires
        a != b,
    ensures
        staging_name_text(pid, a) != staging_name_text(pid, b),
{
    let prefix = ".filectrl-"@ + decimal(pid as nat) + "-"@;
    let x = prefix + decimal(a as nat);
    let y = prefix + decimal(b as nat);
    assert(staging_name_text(pid, a) == x);
    assert(staging_name_text(pid, b) == y);
    if x == y {
        assert(x.skip(prefix.len() as int) =~= decimal(a as nat));
        assert(y.skip(prefix.len() as int) =~= decimal(b as nat));
        crate::keys_laws::lemma_decimal_digits(a as nat);
        crate::keys_laws::lemma_decimal_digits(b as nat);
    }
}

/// How many names a replacement is offered for its staging directory before
/// it gives up.
pub const STAGING_ATTEMPTS: u64 = 16;

/// The names offered for one staging directory: for the process `pid`, from
/// the serial `next` on, one serial per name, `STAGING_ATTEMPTS` at most.
pub struct StagingNames {
    pid: u32,
    next: u64,
    offered: u64,
}

impl StagingNames {
    pub closed spec fn pid(&self) -> u32 {
        self.pid
    }

    pub closed spec fn next_serial(&self) -> u64 {
        self.next
    }

    pub closed spec fn offered(&self) -> nat {
        self.offered as nat
    }

    /// The names for the process `pid`, from the serial `first` on.
    pub fn new(pid: u32, first: u64) -> (names: Self)
        ensures
            names.pid() == pid,
            names.next_serial() == first,
            names.offered() == 0,
    {
        StagingNames { pid, next: first, offered: 0 }
    }

    /// The next name, with the serial it takes, or none once
    /// `STAGING_ATTEMPTS` were offered.
    pub fn next_name(&mut self) -> (r: Option<(String, u64)>)
        requires
            old(self).next_serial() < u64::MAX,
        ensures
            final(self).pid() == old(self).pid(),
            old(self).offered() < STAGING_ATTEMPTS ==> (r matches Some((name, serial)) && serial
                == old(self).next_serial() && name@ == staging_name_text(old(self).pid(), serial)
                && final(self).next_serial() == old(self).next_serial() + 1 && final(self).offered()
                == old(self).offered() + 1),
            old(self).offered() >= STAGING_ATTEMPTS ==> r is None && final(self).next_serial()
                == old(self).next_serial() && final(self).offered() == old(self).offered(),
    {
        if self.offered >= STAGING_ATTEMPTS {
            return None;
        }
        let serial = self.next;
        self.next = self.next + 1;
        self.offered = self.offered + 1;
        Some((staging_name(self.pid, serial), serial))
    }
}

/// The POSIX ACL attributes an entry can have, which carry permissions, so
/// they are still asked for by name when the full list of attributes cannot
/// be read: the access ACL, and for a directory the default one.
pub fn acl_names(is_directory: bool) -> (names: Vec<Vec<u8>>)
    ensures
        names@.len() == if is_directory { 2int } else { 1int },
        names@[0]@ == "system.posix_acl_access"@.map_values(|c: char| c as u8),
        is_directory ==> names@[1]@ == "system.posix_acl_default"@.map_values(|c: char| c as u8),
{
    let mut names: Vec<Vec<u8>> = Vec::new();
    names.push(ascii_bytes("system.posix_acl_access"));
    if is_directory {
        names.push(ascii_bytes("system.posix_acl_default"));
    }
    names
}

/// The bytes of ASCII `text`.
fn ascii_bytes(text: &str) -> (bytes: Vec<u8>)
    ensures
        bytes@ == text@.map_values(|c: char| c as u8),
{
    let chars = crate::text_buf::chars_of(text);
    let mut bytes: Vec<u8> = Vec::new();
    let mut i: usize = 0;
    while i < chars.len()
        invariant
            i <= chars@.len(),
            chars@ == text@,
            bytes@ == chars@.take(i as int).map_values(|c: char| c as u8),
        decreases chars@.len() - i,
    {
        bytes.push(chars[i] as u8);
        assert(chars@.take(i + 1).map_values(|c: char| c as u8) =~= chars@.take(i as int).map_values(
            |c: char| c as u8,
        ).push(chars@[i as int] as u8));
        i = i + 1;
    }
    assert(chars@.take(chars@.len() as int) =~= chars@);
    bytes
}

/// What writing an entry's copy failed at.
#[derive(Clone, Copy, Debug, PartialEq, Eq, Structural)]
pub enum WriteFailure {
    /// Writing a file's bytes.
    Write,
    /// Creating a symlink.
    CreateSymlink,
    /// Creating a FIFO, socket or device node.
    CreateSpecialFile,
}

/// How the failure reads when the entry is not staged to replace another.
pub open spec fn write_failure_text(what: WriteFailure, new: Seq<u8>, error: IoFailure) -> Seq<char> {
    (match what {
        WriteFailure::Write => "Failed to write "@,
        WriteFailure::CreateSymlink => "Failed to create symlink "@,
        WriteFailure::CreateSpecialFile => "Failed to create special file "@,
    }) + quoted_text(new) + ": "@ + failure_text(error)
}

/// How a failure to write the entry `paths` names reads: naming the entry as
/// what failed, or, while the entry is staged to replace another, as the
/// transfer that failed, since the entry at the name is not what failed and
/// is left as it was.
pub fn written_failure(what: WriteFailure, staged: bool, is_move: bool, paths: &Paths, error: &IoFailure) -> (m:
    String)
    ensures
        m@ == if staged {
            failed_transfer_text(is_move, paths.old@, paths.new@, failure_text(*error))
        } else {
            write_failure_text(what, paths.new@, *error)
        },
{
    if staged {
        return failed_transfer(is_move, paths.old.as_slice(), paths.new.as_slice(), error);
    }
    let mut m = String::from_str(
        match what {
            WriteFailure::Write => "Failed to write ",
            WriteFailure::CreateSymlink => "Failed to create symlink ",
            WriteFailure::CreateSpecialFile => "Failed to create special file ",
        },
    );
    let n = compact(paths.new.as_slice());
    m.append(n.as_str());
    m.append(": ");
    let e = error.message();
    m.append(e.as_str());
    m
}

/// A failure to read the source `old`: its bytes, or where a symlink points
/// (`symlink`).
pub fn read_failure(symlink: bool, old: &[u8], error: &IoFailure) -> (m: String)
    ensures
        m@ == (if symlink {
            "Failed to read symlink "@
        } else {
            "Failed to read "@
        }) + quoted_text(old@) + ": "@ + failure_text(*error),
{
    let mut m = String::from_str(
        if symlink {
            "Failed to read symlink "
        } else {
            "Failed to read "
        },
    );
    let o = compact(old);
    m.append(o.as_str());
    m.append(": ");
    let e = error.message();
    m.append(e.as_str());
    m
}

/// The refusal of a source that is neither a file, a directory, a symlink,
/// a FIFO, a socket nor a device.
pub fn unsupported_type(is_move: bool, old: &[u8]) -> (m: String)
    ensures
        m@ == cannot_entry_text(is_move, old@, "unsupported file type"@),
{
    cannot_entry(is_move, old, "unsupported file type")
}

} // verus!
