//! How the copy of the entry a task was started for begins: its name and its
//! destination's must end in a name, the source found must still be of the
//! type it was listed with, and then a file either replaces the entry an
//! overwrite was granted for, whole or not at all, or is copied, while a
//! directory is entered.

use vstd::prelude::*;
use vstd::string::StringExecFns;

use crate::copying::{
    cannot_entry, cannot_entry_text, failed_transfer, failed_transfer_text, failure_text, type_bits,
    cannot_transfer_text, not_replaced, not_replaced_text, raced_reason, raced_refusal, staging_changed,
    still_holds, Holds, IoFailure, Paths, Seen, Stat,
};
use crate::paths::{file_name, file_name_of};

verus! {

/// How the top-level entry is copied.
pub enum CopyStart {
    /// A file, over the entry the granted overwrite names.
    Replace(Seen),
    /// A file, symlink or special file, to a free name.
    Copy,
    /// A directory, which is made and entered.
    Enter,
}

/// What a failure of the top-level entry adds when an overwrite of `new` was
/// granted: that the entry there was left as it was.
pub open spec fn kept_note(overwrite: Option<Seen>, new: Seq<u8>) -> Seq<char> {
    if overwrite is Some {
        not_replaced_text(new)
    } else {
        Seq::empty()
    }
}

/// The final names of the source `old_path` and the destination `new_path`,
/// by which both are reached from their parents; a path that ends in none is
/// refused, saying so of the destination where an overwrite was granted.
pub fn top_names(is_move: bool, old_path: &[u8], new_path: &[u8], overwrite: Option<Seen>) -> (r:
    Result<(Vec<u8>, Vec<u8>), String>)
    ensures
        match (file_name(old_path@), file_name(new_path@)) {
            (Some(a), Some(b)) => r matches Ok(names) && names.0@ == a && names.1@ == b,
            _ => r matches Err(m) && m@ == cannot_entry_text(
                is_move,
                old_path@,
                "path has no file name"@,
            ) + kept_note(overwrite, new_path@),
        },
{
    match (file_name_of(old_path), file_name_of(new_path)) {
        (Some(a), Some(b)) => Ok((a, b)),
        _ => {
            let mut m = cannot_entry(is_move, old_path, "path has no file name");
            if overwrite.is_some() {
                let left = not_replaced(new_path);
                m.append(left.as_str());
            }
            Err(m)
        },
    }
}

/// How the copy of the top-level entry begins, once its parents were opened
/// and the source read (`found`): a failure there is the transfer's; a
/// source no longer of the type it was `listed_mode` with is refused; a
/// directory listed is entered, and a file replaces the entry the granted
/// `overwrite` names or is copied to a free name. A refusal says, where an
/// overwrite was granted, that the entry at the destination was left.
pub fn copy_start(
    is_move: bool,
    old_path: &[u8],
    new_path: &[u8],
    listed_directory: bool,
    listed_mode: u32,
    found: Result<Stat, IoFailure>,
    overwrite: Option<Seen>,
) -> (r: Result<CopyStart, String>)
    ensures
        match found {
            Err(error) => r matches Err(m) && m@ == failed_transfer_text(
                is_move,
                old_path@,
                new_path@,
                failure_text(error),
            ) + kept_note(overwrite, new_path@),
            Ok(stat) => if stat.st_mode & 0o170000 != listed_mode & 0o170000 {
                r matches Err(m) && m@ == cannot_entry_text(
                    is_move,
                    old_path@,
                    "its type changed since it was selected"@,
                ) + kept_note(overwrite, new_path@)
            } else if listed_directory {
                r is Ok && r->Ok_0 is Enter
            } else {
                match overwrite {
                    Some(granted) => r matches Ok(CopyStart::Replace(g)) && g == granted,
                    None => r is Ok && r->Ok_0 is Copy,
                }
            },
        },
{
    let mut m = match found {
        Err(error) => failed_transfer(is_move, old_path, new_path, &error),
        Ok(stat) => {
            if type_bits(stat.st_mode) != type_bits(listed_mode) {
                cannot_entry(is_move, old_path, "its type changed since it was selected")
            } else if listed_directory {
                return Ok(CopyStart::Enter);
            } else {
                return match overwrite {
                    Some(granted) => Ok(CopyStart::Replace(granted)),
                    None => Ok(CopyStart::Copy),
                };
            }
        },
    };
    if overwrite.is_some() {
        let left = not_replaced(new_path);
        m.append(left.as_str());
    }
    Err(m)
}

/// How a name found taken is settled.
pub enum Raced {
    /// Left alone under a standing "skip all".
    Skipped,
    /// Refused, with the message to record.
    Refused(String),
}

/// Settles the destination name of the top-level entry (`paths`), taken
/// since the task saw it free. Nothing decided to replace what holds it now,
/// so it is never replaced. In the staging directory, created empty for the
/// one entry, it is no race another program could win fairly: it is refused.
/// Elsewhere a standing "skip all" (`skips_raced`) skips it, which also makes
/// a move keep its source; otherwise it is refused.
pub fn raced_top(is_move: bool, staging: bool, skips_raced: bool, paths: &Paths) -> (r: Raced)
    ensures
        staging ==> (r matches Raced::Refused(m) && m@ == cannot_transfer_text(
            is_move,
            paths.old@,
            paths.new@,
            "its staging directory was changed"@,
        )),
        !staging && skips_raced ==> r is Skipped,
        !staging && !skips_raced ==> (r matches Raced::Refused(m) && m@ == cannot_transfer_text(
            is_move,
            paths.old@,
            paths.new@,
            raced_reason(),
        )),
{
    if staging {
        Raced::Refused(staging_changed(is_move, paths))
    } else if skips_raced {
        Raced::Skipped
    } else {
        Raced::Refused(raced_refusal(is_move, paths.old.as_slice(), paths.new.as_slice()))
    }
}

/// The system's "file exists", which a rename that replaces nothing gives
/// when the name was taken since it was checked.
pub const EEXIST: i32 = 17;

/// How the rename that lands a replacement ended.
pub enum Landed {
    /// The replacement holds the name.
    Landed,
    /// The name was taken since the check, and a standing "skip all" skips it.
    Skipped,
    /// The rename failed, with the message to record.
    Refused(String),
}

/// What the rename that lands the replacement of `paths.new` (`renamed`)
/// means. A name taken since the check, which only a rename that replaces
/// nothing can find, is skipped under a standing "skip all", as a raced name
/// anywhere else is, and refused as raced otherwise. Any other failure is the
/// transfer's, and only a rename that `replaces` the entry granted leaves
/// that entry at the name, which the message then says.
pub fn landed(
    is_move: bool,
    skips_raced: bool,
    paths: &Paths,
    replaces: bool,
    renamed: Result<(), IoFailure>,
) -> (r: Landed)
    ensures
        match renamed {
            Ok(()) => r is Landed,
            Err(error) => if error matches IoFailure::Os { code, .. } && code == EEXIST {
                if skips_raced {
                    r is Skipped
                } else {
                    r matches Landed::Refused(m) && m@ == cannot_transfer_text(
                        is_move,
                        paths.old@,
                        paths.new@,
                        raced_reason(),
                    )
                }
            } else {
                r matches Landed::Refused(m) && m@ == failed_transfer_text(
                    is_move,
                    paths.old@,
                    paths.new@,
                    failure_text(error),
                ) + (if replaces {
                    not_replaced_text(paths.new@)
                } else {
                    Seq::empty()
                })
            },
        },
{
    match renamed {
        Ok(()) => Landed::Landed,
        Err(error) => {
            let taken = match &error {
                IoFailure::Os { code, .. } => *code == EEXIST,
                _ => false,
            };
            if taken {
                if skips_raced {
                    Landed::Skipped
                } else {
                    Landed::Refused(
                        raced_refusal(is_move, paths.old.as_slice(), paths.new.as_slice()),
                    )
                }
            } else {
                let mut m = failed_transfer(is_move, paths.old.as_slice(), paths.new.as_slice(), &error);
                if replaces {
                    let left = not_replaced(paths.new.as_slice());
                    m.append(left.as_str());
                }
                Landed::Refused(m)
            }
        },
    }
}

/// What landing a replacement that was copied whole does next.
pub enum Landing {
    /// Rename the copy over the name: over the entry granted (`replaces`), or
    /// onto a name found free, without replacing anything.
    Rename { replaces: bool },
    /// The name holds another entry, or the one granted written since: it is
    /// not replaced, and the refusal says so.
    Changed,
    /// Refused before the rename, with the message to record.
    Refused(String),
}

/// Whether the replacement of `paths.new`, copied whole into its staging
/// directory, may land: only while the staging directory still holds the
/// entry the copy made (`staging_holds_copy`), and only over the entry the
/// overwrite was `granted` for, as the name is found now (`found`), or onto
/// the name found free. A refusal says the entry at the name was left.
pub fn land(
    is_move: bool,
    staging_holds_copy: bool,
    paths: &Paths,
    granted: Seen,
    found: Result<Option<Seen>, IoFailure>,
) -> (r: Landing)
    ensures
        !staging_holds_copy ==> (r matches Landing::Refused(m) && m@ == cannot_transfer_text(
            is_move,
            paths.old@,
            paths.new@,
            "its staging directory was changed"@,
        ) + not_replaced_text(paths.new@)),
        staging_holds_copy ==> match found {
            Err(error) => r matches Landing::Refused(m) && m@ == failed_transfer_text(
                is_move,
                paths.old@,
                paths.new@,
                failure_text(error),
            ) + not_replaced_text(paths.new@),
            Ok(None) => r matches Landing::Rename { replaces } && !replaces,
            Ok(Some(seen)) => if seen == granted {
                r matches Landing::Rename { replaces } && replaces
            } else {
                r is Changed
            },
        },
{
    if !staging_holds_copy {
        let mut m = staging_changed(is_move, paths);
        let left = not_replaced(paths.new.as_slice());
        m.append(left.as_str());
        return Landing::Refused(m);
    }
    match found {
        Err(error) => {
            let mut m = failed_transfer(is_move, paths.old.as_slice(), paths.new.as_slice(), &error);
            let left = not_replaced(paths.new.as_slice());
            m.append(left.as_str());
            Landing::Refused(m)
        },
        Ok(found) => match still_holds(granted, found) {
            Holds::Granted => Landing::Rename { replaces: true },
            Holds::Free => Landing::Rename { replaces: false },
            Holds::Changed => Landing::Changed,
        },
    }
}

/// What a task with a granted overwrite finds before it opens anything.
pub enum Prepared {
    /// Go on, replacing the entry granted (`Some`), or with the name found
    /// free, as a copy to a free name (`None`).
    Go(Option<Seen>),
    /// The name holds another entry, or the one granted written since: the
    /// task is refused and nothing replaced.
    Changed,
    /// The name could not be looked at: the task fails with this message.
    Failed(String),
}

/// The check a task makes of its destination `paths.new` before it opens
/// anything, so a copy that could never land opens nothing: with an
/// `overwrite` granted, what the name holds now (`found`) decides whether
/// the entry granted is replaced, the name is taken as free, or the task is
/// refused. Without one, nothing is looked at and the copy goes to a free
/// name.
pub fn prepare_replace(
    is_move: bool,
    paths: &Paths,
    overwrite: Option<Seen>,
    found: Result<Option<Seen>, IoFailure>,
) -> (r: Prepared)
    ensures
        match overwrite {
            None => r matches Prepared::Go(replace) && replace is None,
            Some(granted) => match found {
                Err(error) => r matches Prepared::Failed(m) && m@ == failed_transfer_text(
                    is_move,
                    paths.old@,
                    paths.new@,
                    failure_text(error),
                ) + not_replaced_text(paths.new@),
                Ok(None) => r matches Prepared::Go(replace) && replace is None,
                Ok(Some(seen)) => if seen == granted {
                    r matches Prepared::Go(replace) && replace == Some(granted)
                } else {
                    r is Changed
                },
            },
        },
{
    match overwrite {
        None => Prepared::Go(None),
        Some(granted) => match found {
            Err(error) => {
                let mut m = failed_transfer(is_move, paths.old.as_slice(), paths.new.as_slice(), &error);
                let left = not_replaced(paths.new.as_slice());
                m.append(left.as_str());
                Prepared::Failed(m)
            },
            Ok(found) => match still_holds(granted, found) {
                Holds::Granted => Prepared::Go(Some(granted)),
                Holds::Free => Prepared::Go(None),
                Holds::Changed => Prepared::Changed,
            },
        },
    }
}

/// Whether the source, of mode `source_mode`, is opened before the copy
/// starts: only a regular file, so one that cannot be read fails the task
/// with the destination untouched. A FIFO would block, and a directory or a
/// symlink is not read as bytes.
pub fn opens_source_first(source_mode: u32) -> (b: bool)
    ensures
        b == (source_mode & 0o170000 == 0o100000),
{
    type_bits(source_mode) == 0o100000
}

/// The failure of a task whose source could not be opened (`error`), which
/// says, where it was to `replace` an entry, that the entry was left.
pub fn source_unopened(is_move: bool, paths: &Paths, replace: bool, error: &IoFailure) -> (m: String)
    ensures
        m@ == failed_transfer_text(is_move, paths.old@, paths.new@, failure_text(*error)) + (if replace {
            not_replaced_text(paths.new@)
        } else {
            Seq::empty()
        }),
{
    let mut m = failed_transfer(is_move, paths.old.as_slice(), paths.new.as_slice(), error);
    if replace {
        let left = not_replaced(paths.new.as_slice());
        m.append(left.as_str());
    }
    m
}

} // verus!
