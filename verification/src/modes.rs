//! The modes a copy gives what it creates. A copy is created with the
//! source's permission bits, which the umask trims as it does for `cp`, and
//! ends with them, never with the source's setuid, setgid or sticky bits. A
//! move ends with the source's full mode, as `mv` keeps it, but for setuid and
//! setgid where the ownership did not carry over.

use vstd::prelude::*;
use vstd::string::StringExecFns;

use crate::copying::{failure_text, IoFailure};
use crate::text::char_of_ascii;
use crate::text_buf::push_char;
use crate::transfer::{compact, quoted_text};

verus! {

/// The mode a regular file is created with: for a copy the source's
/// permission bits, for a move its owner bits with read and write added.
pub open spec fn file_creation(source_mode: u32, is_move: bool) -> u32 {
    if is_move {
        (source_mode & 0o700) | 0o600
    } else {
        source_mode & 0o777
    }
}

pub fn file_creation_mode(source_mode: u32, is_move: bool) -> (mode: u32)
    ensures
        mode == file_creation(source_mode, is_move),
{
    if is_move {
        (source_mode & 0o700) | 0o600
    } else {
        source_mode & 0o777
    }
}

/// The mode a directory is created with: owner-only for a move, the source's
/// permission bits with owner access added for a copy, so its entries can be
/// created in it.
pub open spec fn directory_creation(source_mode: u32, is_move: bool) -> u32 {
    if is_move {
        0o700
    } else {
        (source_mode & 0o777) | 0o700
    }
}

pub fn directory_creation_mode(source_mode: u32, is_move: bool) -> (mode: u32)
    ensures
        mode == directory_creation(source_mode, is_move),
{
    if is_move {
        0o700
    } else {
        (source_mode & 0o777) | 0o700
    }
}

/// What the final mode depends on of the source: its mode and owner.
#[derive(Clone, Copy, Debug)]
pub struct SourceOwner {
    pub mode: u32,
    pub uid: u32,
    pub gid: u32,
}

/// What the final mode depends on of the copy as created: its mode, owner,
/// and whether it is a directory.
#[derive(Clone, Copy, Debug)]
pub struct Created {
    pub mode: u32,
    pub uid: u32,
    pub gid: u32,
    pub is_directory: bool,
}

/// The mode a copied entry ends with. A copy keeps the permission bits the
/// umask left at creation, the source's owner bits, and for a directory the
/// setgid bit it inherited from its parent. A move keeps the source's full
/// mode, but setuid and setgid only where the copy has the source's user and
/// group.
pub open spec fn final_mode(is_move: bool, source: SourceOwner, created: Created) -> u32 {
    let created_mode = created.mode & 0o777;
    if is_move {
        let special: u32 = if created.uid == source.uid && created.gid == source.gid {
            0o7000
        } else {
            0o1000
        };
        source.mode & (0o777 | special)
    } else {
        let inherited: u32 = if created.is_directory {
            created.mode & 0o2000
        } else {
            0
        };
        (created_mode & 0o077) | (source.mode & created_mode & 0o700) | inherited
    }
}

pub fn final_mode_of(is_move: bool, source: &SourceOwner, created: &Created) -> (mode: u32)
    ensures
        mode == final_mode(is_move, *source, *created),
{
    let created_mode = created.mode & 0o777;
    if is_move {
        let special: u32 = if created.uid == source.uid && created.gid == source.gid {
            0o7000
        } else {
            0o1000
        };
        source.mode & (0o777 | special)
    } else {
        let inherited: u32 = if created.is_directory {
            created.mode & 0o2000
        } else {
            0
        };
        (created_mode & 0o077) | (source.mode & created_mode & 0o700) | inherited
    }
}

/// A copy never ends with setuid or sticky, nor with setgid but the one a
/// directory inherited from its parent; and it grants no one more than the
/// mode it was created with.
pub proof fn a_copy_drops_the_special_bits(source: SourceOwner, created: Created)
    ensures
        final_mode(false, source, created) & 0o4000 == 0,
        final_mode(false, source, created) & 0o1000 == 0,
        !created.is_directory ==> final_mode(false, source, created) & 0o2000 == 0,
        final_mode(false, source, created) & 0o777 & !(created.mode & 0o777) == 0,
{
    let s = source.mode;
    let c = created.mode;
    let m = final_mode(false, source, created);
    if created.is_directory {
        assert(m == ((c & 0o777) & 0o077) | (s & (c & 0o777) & 0o700) | (c & 0o2000));
        assert(((((c & 0o777) & 0o077) | (s & (c & 0o777) & 0o700) | (c & 0o2000)) & 0o4000 == 0)
            && ((((c & 0o777) & 0o077) | (s & (c & 0o777) & 0o700) | (c & 0o2000)) & 0o1000 == 0)
            && ((((c & 0o777) & 0o077) | (s & (c & 0o777) & 0o700) | (c & 0o2000)) & 0o777 & !(c
            & 0o777) == 0)) by (bit_vector);
    } else {
        assert(m == ((c & 0o777) & 0o077) | (s & (c & 0o777) & 0o700) | 0);
        assert(((((c & 0o777) & 0o077) | (s & (c & 0o777) & 0o700) | 0) & 0o4000 == 0)
            && ((((c & 0o777) & 0o077) | (s & (c & 0o777) & 0o700) | 0) & 0o1000 == 0)
            && ((((c & 0o777) & 0o077) | (s & (c & 0o777) & 0o700) | 0) & 0o2000 == 0)
            && ((((c & 0o777) & 0o077) | (s & (c & 0o777) & 0o700) | 0) & 0o777 & !(c & 0o777)
            == 0)) by (bit_vector);
    }
}

/// A file copied ends with the permission bits of its source that the umask
/// left (`left`) when it was created with them, and with no setuid, setgid
/// or sticky bit, whatever the source had.
pub proof fn a_copied_file_ends_with_what_the_umask_left(source: SourceOwner, created: Created, left: u32)
    requires
        !created.is_directory,
        created.mode & 0o777 == file_creation(source.mode, false) & left,
    ensures
        final_mode(false, source, created) & 0o7777 == source.mode & 0o777 & left,
{
    let s = source.mode;
    let c = created.mode;
    assert(final_mode(false, source, created) == ((c & 0o777) & 0o077) | (s & (c & 0o777) & 0o700) | 0);
    assert((c & 0o777 == (s & 0o777) & left) ==> ((((c & 0o777) & 0o077) | (s & (c & 0o777) & 0o700)
        | 0) & 0o7777 == s & 0o777 & left)) by (bit_vector);
}

/// A move keeps the source's whole mode where the copy has the source's user
/// and group, and otherwise all of it but setuid and setgid.
pub proof fn a_move_keeps_the_mode(source: SourceOwner, created: Created)
    ensures
        created.uid == source.uid && created.gid == source.gid ==> final_mode(true, source, created)
            == source.mode & 0o7777,
        !(created.uid == source.uid && created.gid == source.gid) ==> final_mode(
            true,
            source,
            created,
        ) == source.mode & 0o1777,
{
    let s = source.mode;
    assert(s & (0o777u32 | 0o7000u32) == s & 0o7777u32) by (bit_vector);
    assert(s & (0o777u32 | 0o1000u32) == s & 0o1777u32) by (bit_vector);
}

/// Owner access to add to a directory that lacks it (its permission bits
/// `mode`): the mode to give it, with owner read, write and search added, or
/// nothing when it has them.
pub open spec fn owner_access(mode: u32) -> Option<u32> {
    if mode & 0o7777 & 0o700 == 0o700 {
        None
    } else {
        Some((mode & 0o7777) | 0o700)
    }
}

pub fn owner_access_for(mode: u32) -> (grant: Option<u32>)
    ensures
        grant == owner_access(mode),
{
    let had = mode & 0o7777;
    if had & 0o700 == 0o700 {
        None
    } else {
        Some(had | 0o700)
    }
}

/// `n` in octal, without leading zeros.
pub open spec fn octal(n: nat) -> Seq<char>
    decreases n,
{
    if n < 8 {
        seq![(('0' as u32) + n) as char]
    } else {
        octal(n / 8).push((('0' as u32) + (n % 8)) as char)
    }
}

/// Appends `n` in octal.
fn push_octal(s: &mut String, n: u32)
    ensures
        final(s)@ == old(s)@ + octal(n as nat),
    decreases n,
{
    if n >= 8 {
        push_octal(s, n / 8);
    }
    let digit = (n % 8) as u8;
    push_char(s, char_of_ascii(0x30 + digit));
}

/// What a failure to give a node a move made the source's permission bits
/// records: nothing where the system cannot set a mode without following a
/// link (a warning is enough), the replacement's failure while the entry is
/// staged to replace another, and otherwise the `chmod` that failed.
pub open spec fn mode_restore_failure(
    new_path: Seq<u8>,
    source_mode: u32,
    error: IoFailure,
    not_supported: bool,
    staged: bool,
) -> Option<Seq<char>> {
    if not_supported {
        None
    } else if staged {
        Some(
            "Failed to set the mode of the replacement for "@ + quoted_text(new_path) + ": "@
                + failure_text(error),
        )
    } else {
        Some(
            "Failed to chmod "@ + quoted_text(new_path) + " to "@ + octal((source_mode & 0o777) as nat)
                + ": "@ + failure_text(error),
        )
    }
}

pub fn mode_restore_error(
    new_path: &[u8],
    source_mode: u32,
    error: &IoFailure,
    not_supported: bool,
    staged: bool,
) -> (m: Option<String>)
    ensures
        match mode_restore_failure(new_path@, source_mode, *error, not_supported, staged) {
            Some(text) => m matches Some(s) && s@ == text,
            None => m is None,
        },
{
    if not_supported {
        return None;
    }
    let quoted = compact(new_path);
    let e = error.message();
    if staged {
        let mut m = String::from_str("Failed to set the mode of the replacement for ");
        m.append(quoted.as_str());
        m.append(": ");
        m.append(e.as_str());
        Some(m)
    } else {
        let mut m = String::from_str("Failed to chmod ");
        m.append(quoted.as_str());
        m.append(" to ");
        push_octal(&mut m, source_mode & 0o777);
        m.append(": ");
        m.append(e.as_str());
        Some(m)
    }
}

} // verus!
