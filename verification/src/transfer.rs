//! Checking a copy or move before it starts: where the entry would land, and
//! whether landing there would paste it onto itself, into itself, or over
//! something it must not replace.

use vstd::prelude::*;
use vstd::string::StringExecFns;

use crate::paths::{
    comps, components, components_of, file_name, file_name_of, join_name, joined_path, normalize,
    normalized, same_components, starts_with, starts_with_components, Comp, Component,
};
use crate::text::{keep_nothing, shown_bytes, visible_os};

verus! {

/// The operation a transfer names in its messages.
pub open spec fn verb_text(is_move: bool) -> Seq<char> {
    if is_move {
        "move"@
    } else {
        "copy"@
    }
}

/// "move" or "copy".
pub fn verb(is_move: bool) -> (v: &'static str)
    ensures
        v@ == verb_text(is_move),
{
    if is_move {
        "move"
    } else {
        "copy"
    }
}

/// How a path is named in a message: shown as `visible_os` shows it, in
/// double quotes.
pub open spec fn quoted_text(path: Seq<u8>) -> Seq<char> {
    "\""@ + shown_bytes(path, keep_nothing()) + "\""@
}

/// `path` shown as `visible_os` shows it, in double quotes.
pub fn compact(path: &[u8]) -> (q: String)
    ensures
        q@ == quoted_text(path@),
{
    let mut q = String::from_str("\"");
    let shown = visible_os(path);
    q.append(shown.as_str());
    q.append("\"");
    q
}

/// An entry as the listing showed it: its path, and whether it is a directory.
pub struct PathInfo {
    pub path: Vec<u8>,
    pub is_directory: bool,
}

impl PathInfo {
    pub fn is_directory(&self) -> (b: bool)
        ensures
            b == self.is_directory,
    {
        self.is_directory
    }
}

/// What resolving the directory part of an entry (its parent, or the path
/// itself when it has no final name) gave: the path with symlinks resolved,
/// when it exists, and the path made absolute, when it could be.
pub struct Resolution {
    pub canonical: Option<Vec<u8>>,
    pub absolute: Option<Vec<u8>>,
}

/// What an existing entry at the destination is.
#[derive(Clone, Copy, PartialEq, Eq, Structural)]
pub enum EntryKind {
    Directory,
    Other,
}

/// What the file system showed of the source and its destination when a
/// transfer was checked.
pub struct Observed {
    /// The source's directory part resolved.
    pub source: Resolution,
    /// The destination's directory part resolved.
    pub destination: Resolution,
    /// Both paths name one file (same device and inode), following neither
    /// symlink.
    pub same_file: bool,
    /// When the source is a symlink, what its target resolves to.
    pub source_link_target: Option<Vec<u8>>,
    /// What the destination name holds, without following a symlink.
    pub existing: Option<EntryKind>,
}

/// The components of `path` with symlinks and `..` resolved in its directory
/// part but not in its own name, so a symlink is compared as itself: the
/// resolved directory when it exists, otherwise the absolute path (or the
/// path) collapsed lexically.
pub open spec fn resolved_entry(path: Seq<u8>, r: Resolution) -> Seq<Comp> {
    let own = components(path);
    let dir = if file_name(path) is Some { own.drop_last() } else { own };
    let base = match r.canonical {
        Some(c) => components(c@),
        None => normalized(
            match r.absolute {
                Some(a) => components(a@),
                None => dir,
            },
        ),
    };
    match file_name(path) {
        Some(name) => base.push(Comp::Normal(name)),
        None => base,
    }
}

/// `path` with its directory part resolved as `resolution` says.
pub fn resolve_entry(path: &[u8], resolution: &Resolution) -> (entry: Vec<Component>)
    ensures
        comps(entry@) == resolved_entry(path@, *resolution),
{
    let own = components_of(path);
    let name = file_name_of(path);
    let mut base = match &resolution.canonical {
        Some(c) => components_of(c.as_slice()),
        None => match &resolution.absolute {
            Some(a) => normalize(&components_of(a.as_slice())),
            None => {
                let mut dir = own;
                if name.is_some() {
                    let ghost before = comps(dir@);
                    dir.pop();
                    assert(comps(dir@) =~= before.drop_last());
                }
                normalize(&dir)
            },
        },
    };
    match name {
        Some(n) => {
            let ghost before = comps(base@);
            base.push(Component::Normal(n));
            assert(comps(base@) =~= before.push(Comp::Normal(file_name(path@)->Some_0)));
        },
        None => {},
    }
    base
}

/// How pasting an entry as `destination` would paste it onto itself. Refused, never offered as a
/// collision.
#[derive(Clone, Copy, Debug, PartialEq, Eq, Structural)]
pub enum OntoItself {
    /// Both paths name one entry: the destination directory is the source's own.
    SameEntry,
    /// Two names of one file (hard links, or a case-insensitive mount). `cp` and `mv` refuse it.
    SameFile,
    /// A symlink pasted over the entry it points at. `cp` and `mv` refuse it.
    LinksTo,
}

/// How pasting `source` as `destination` pastes it onto itself, if it does.
pub open spec fn onto_itself_spec(source: Seq<u8>, destination: Seq<u8>, observed: Observed) -> Option<
    OntoItself,
> {
    if resolved_entry(source, observed.source) == resolved_entry(destination, observed.destination) {
        Some(OntoItself::SameEntry)
    } else if observed.same_file {
        Some(OntoItself::SameFile)
    } else if observed.source_link_target matches Some(t) && components(t@) == resolved_entry(
        destination,
        observed.destination,
    ) {
        Some(OntoItself::LinksTo)
    } else {
        None
    }
}

/// Whether `link` is a symlink to the entry `entry` names: its target
/// resolves to the entry resolved.
pub fn is_link_to(link_target: &Option<Vec<u8>>, entry: &Vec<Component>) -> (b: bool)
    ensures
        b == (link_target matches Some(t) && components(t@) == comps(entry@)),
{
    match link_target {
        Some(t) => same_components(&components_of(t.as_slice()), entry),
        None => false,
    }
}

/// Whether pasting `source` as `destination` would paste it onto itself. Shared by the paste queue
/// and the task, so the prompt never offers what the task refuses. Paths are compared resolved; a
/// symlink in the last component is compared as itself.
pub fn onto_itself(source: &[u8], destination: &[u8], observed: &Observed) -> (r: Option<
    OntoItself,
>)
    ensures
        r == onto_itself_spec(source@, destination@, *observed),
{
    let old = resolve_entry(source, &observed.source);
    let new = resolve_entry(destination, &observed.destination);
    if same_components(&old, &new) {
        Some(OntoItself::SameEntry)
    } else if observed.same_file {
        Some(OntoItself::SameFile)
    } else if is_link_to(&observed.source_link_target, &new) {
        Some(OntoItself::LinksTo)
    } else {
        None
    }
}

/// "Cannot `op` `old``rest`".
pub open spec fn cannot(is_move: bool, old: Seq<u8>, rest: Seq<char>) -> Seq<char> {
    "Cannot "@ + verb_text(is_move) + " "@ + quoted_text(old) + rest
}

/// Why a transfer of `source` into `destination_directory` is refused, or the
/// source path and the path it would take, as the file system was observed.
pub open spec fn checked_transfer(
    source: Seq<u8>,
    source_is_directory: bool,
    destination_directory: Seq<u8>,
    is_move: bool,
    overwrite: bool,
    observed: Observed,
) -> Result<(Seq<u8>, Seq<u8>), Seq<char>> {
    match file_name(source) {
        None => Err(cannot(is_move, source, ": path has no file name"@)),
        Some(name) => {
            let new_path = joined_path(destination_directory, name);
            let into = " into "@ + quoted_text(destination_directory);
            match onto_itself_spec(source, new_path, observed) {
                Some(OntoItself::SameEntry) => Err(cannot(is_move, source, " into its own directory"@)),
                Some(OntoItself::SameFile) => Err(
                    cannot(is_move, source, " to "@ + quoted_text(new_path) + ": they are the same file"@),
                ),
                Some(OntoItself::LinksTo) => Err(
                    cannot(
                        is_move,
                        source,
                        ": it links to "@ + quoted_text(new_path) + ", the entry it would replace"@,
                    ),
                ),
                None => if source_is_directory && starts_with(
                    resolved_entry(new_path, observed.destination),
                    resolved_entry(source, observed.source),
                ) {
                    Err(cannot(is_move, source, " into its own subdirectory "@ + quoted_text(new_path)))
                } else if observed.existing == Some(EntryKind::Directory) {
                    Err(cannot(is_move, source, into + ": a directory of that name is already there"@))
                } else if observed.existing is Some && !overwrite {
                    Err(cannot(is_move, source, into + ": it already exists there"@))
                } else if overwrite && source_is_directory {
                    Err(
                        cannot(
                            is_move,
                            source,
                            into + ": a directory never replaces what holds its name"@,
                        ),
                    )
                } else {
                    Ok((source, new_path))
                },
            }
        },
    }
}

/// A directory never replaces what holds its name, like `cp -R` and `mv`: a
/// transfer of a directory granted an overwrite is always refused.
pub proof fn a_directory_never_replaces_anything(
    source: Seq<u8>,
    destination_directory: Seq<u8>,
    is_move: bool,
    observed: Observed,
)
    ensures
        checked_transfer(source, true, destination_directory, is_move, true, observed) is Err,
{
}

/// A name that holds an entry is taken over only by a source that is not a
/// directory, only where an overwrite was granted, and never from a
/// directory; and a transfer that goes ahead lands the source under its own
/// name in the destination directory.
pub proof fn only_a_granted_file_takes_an_occupied_name(
    source: Seq<u8>,
    source_is_directory: bool,
    destination_directory: Seq<u8>,
    is_move: bool,
    overwrite: bool,
    observed: Observed,
)
    ensures
        observed.existing is Some && checked_transfer(
            source,
            source_is_directory,
            destination_directory,
            is_move,
            overwrite,
            observed,
        ) is Ok ==> !source_is_directory && overwrite && observed.existing == Some(EntryKind::Other),
        checked_transfer(
            source,
            source_is_directory,
            destination_directory,
            is_move,
            overwrite,
            observed,
        ) matches Ok((old, new)) ==> old == source && file_name(source) is Some && new == joined_path(
            destination_directory,
            file_name(source)->Some_0,
        ),
{
}

/// "Cannot `op` `old``rest`".
fn cannot_message(is_move: bool, old: &[u8], rest: &str) -> (m: String)
    ensures
        m@ == cannot(is_move, old@, rest@),
{
    let mut m = String::from_str("Cannot ");
    m.append(verb(is_move));
    m.append(" ");
    let q = compact(old);
    m.append(q.as_str());
    m.append(rest);
    m
}

/// "Cannot `op` `old``middle``path``end`".
fn cannot_with_path(is_move: bool, old: &[u8], middle: &str, path: &[u8], end: &str) -> (m: String)
    ensures
        m@ == cannot(is_move, old@, middle@ + quoted_text(path@) + end@),
{
    let mut m = String::from_str("Cannot ");
    m.append(verb(is_move));
    m.append(" ");
    let q = compact(old);
    m.append(q.as_str());
    m.append(middle);
    let p = compact(path);
    m.append(p.as_str());
    m.append(end);
    proof {
        reveal_strlit("");
    }
    assert(m@ =~= cannot(is_move, old@, middle@ + quoted_text(path@) + end@));
    m
}

/// Checks a copy (or a move when `is_move`) of `source` into
/// `destination_directory` against what the file system showed: the source
/// path and the path it would take, or why it is refused.
pub fn validate_paths(
    source: &PathInfo,
    destination_directory: &PathInfo,
    is_move: bool,
    overwrite: bool,
    observed: &Observed,
) -> (r: Result<(Vec<u8>, Vec<u8>), String>)
    ensures
        match checked_transfer(
            source.path@,
            source.is_directory,
            destination_directory.path@,
            is_move,
            overwrite,
            *observed,
        ) {
            Ok((old, new)) => r matches Ok((o, n)) && o@ == old && n@ == new,
            Err(message) => r matches Err(m) && m@ == message,
        },
        source.is_directory && overwrite ==> r is Err,
        observed.existing is Some && r is Ok ==> !source.is_directory && overwrite
            && observed.existing == Some(EntryKind::Other),
{
    proof {
        only_a_granted_file_takes_an_occupied_name(
            source.path@,
            source.is_directory,
            destination_directory.path@,
            is_move,
            overwrite,
            *observed,
        );
        a_directory_never_replaces_anything(
            source.path@,
            destination_directory.path@,
            is_move,
            *observed,
        );
    }
    let old_path = source.path.clone();
    let file_name = match file_name_of(old_path.as_slice()) {
        Some(name) => name,
        None => return Err(cannot_message(is_move, old_path.as_slice(), ": path has no file name")),
    };
    let new_path = join_name(destination_directory.path.as_slice(), file_name.as_slice());
    match onto_itself(old_path.as_slice(), new_path.as_slice(), observed) {
        Some(OntoItself::SameEntry) => {
            return Err(cannot_message(is_move, old_path.as_slice(), " into its own directory"));
        },
        Some(OntoItself::SameFile) => {
            return Err(
                cannot_with_path(
                    is_move,
                    old_path.as_slice(),
                    " to ",
                    new_path.as_slice(),
                    ": they are the same file",
                ),
            );
        },
        Some(OntoItself::LinksTo) => {
            return Err(
                cannot_with_path(
                    is_move,
                    old_path.as_slice(),
                    ": it links to ",
                    new_path.as_slice(),
                    ", the entry it would replace",
                ),
            );
        },
        None => {},
    }
    let abs_old = resolve_entry(old_path.as_slice(), &observed.source);
    let abs_new = resolve_entry(new_path.as_slice(), &observed.destination);
    if source.is_directory() && starts_with_components(&abs_new, &abs_old) {
        proof {
            reveal_strlit("");
            assert(" into its own subdirectory "@ + quoted_text(new_path@) + ""@ =~= " into its own subdirectory "@
                + quoted_text(new_path@));
        }
        return Err(
            cannot_with_path(
                is_move,
                old_path.as_slice(),
                " into its own subdirectory ",
                new_path.as_slice(),
                "",
            ),
        );
    }
    let dest = destination_directory.path.as_slice();
    match observed.existing {
        Some(EntryKind::Directory) => Err(
            cannot_with_path(
                is_move,
                old_path.as_slice(),
                " into ",
                dest,
                ": a directory of that name is already there",
            ),
        ),
        Some(_) if !overwrite => Err(
            cannot_with_path(
                is_move,
                old_path.as_slice(),
                " into ",
                dest,
                ": it already exists there",
            ),
        ),
        _ if overwrite && source.is_directory() => Err(
            cannot_with_path(
                is_move,
                old_path.as_slice(),
                " into ",
                dest,
                ": a directory never replaces what holds its name",
            ),
        ),
        _ => Ok((old_path, new_path)),
    }
}

/// An absolute rendering of `path` for the operations notice, as `visible_os`
/// shows it, given the path made absolute when that could be done.
pub fn display_path(path: &[u8], absolute: &Option<Vec<u8>>) -> (shown: String)
    ensures
        shown@ == shown_bytes(
            match absolute {
                Some(a) => a@,
                None => path@,
            },
            keep_nothing(),
        ),
{
    match absolute {
        Some(a) => visible_os(a.as_slice()),
        None => visible_os(path),
    }
}

} // verus!
