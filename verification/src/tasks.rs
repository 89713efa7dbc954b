//! How a copy, move or delete task ends: the errors it recorded summed up in
//! one line, a cancel that landed while it was queued, and the two stages of a
//! move across devices.

use vstd::prelude::*;
use vstd::string::StringExecFns;

use crate::keys::decimal;
use crate::text::char_of_ascii;
use crate::text_buf::push_char;
use crate::transfer::{compact, quoted_text};

verus! {

/// How a task ended, as it is reported.
pub enum TaskEnd {
    Done,
    Error(String),
    Cancelled,
}

/// The line that sums up `errors`: the first, with a count of the rest when
/// there are others; nothing when there are none.
pub open spec fn summary(errors: Seq<Seq<char>>) -> Option<Seq<char>> {
    if errors.len() == 0 {
        None
    } else if errors.len() == 1 {
        Some(errors[0])
    } else {
        Some(errors[0] + " (and "@ + decimal((errors.len() - 1) as nat) + " more)"@)
    }
}

/// The text views of `errors`.
pub open spec fn texts(errors: Seq<String>) -> Seq<Seq<char>> {
    errors.map_values(|e: String| e@)
}

/// What a task whose work recorded `errors` reports.
pub open spec fn end_of(errors: Seq<Seq<char>>) -> TaskEndView {
    match summary(errors) {
        Some(s) => TaskEndView::Error(s),
        None => TaskEndView::Done,
    }
}

/// A `TaskEnd` with its message as text.
pub enum TaskEndView {
    Done,
    Error(Seq<char>),
    Cancelled,
}

impl TaskEnd {
    pub open spec fn view(&self) -> TaskEndView {
        match self {
            TaskEnd::Done => TaskEndView::Done,
            TaskEnd::Error(m) => TaskEndView::Error(m@),
            TaskEnd::Cancelled => TaskEndView::Cancelled,
        }
    }
}

/// Appends `n` in decimal.
pub(crate) fn push_count(s: &mut String, n: u64)
    ensures
        final(s)@ == old(s)@ + decimal(n as nat),
    decreases n,
{
    if n >= 10 {
        push_count(s, n / 10);
    }
    let digit = (n % 10) as u8;
    push_char(s, char_of_ascii(0x30 + digit));
    proof {
        if n >= 10 {
            assert(decimal(n as nat) == decimal((n / 10) as nat).push(
                (('0' as u32) + (n % 10) as nat) as char,
            ));
        }
    }
}

/// One line for the errors a task recorded, the first with a count of the
/// rest.
pub fn summarize(errors: Vec<String>) -> (line: Option<String>)
    ensures
        match summary(texts(errors@)) {
            Some(s) => line matches Some(l) && l@ == s,
            None => line is None,
        },
{
    let n = errors.len();
    if n == 0 {
        return None;
    }
    let first = errors[0].clone();
    assert(texts(errors@)[0] == errors@[0]@);
    if n == 1 {
        return Some(first);
    }
    let mut line = first;
    line.append(" (and ");
    push_count(&mut line, (n - 1) as u64);
    line.append(" more)");
    Some(line)
}

/// Finalizes a copy, move or delete like coreutils: done when no per-entry
/// error was recorded, otherwise one alert summing them up.
pub fn finalize(errors: Vec<String>) -> (end: TaskEnd)
    ensures
        end@ == end_of(texts(errors@)),
{
    match summarize(errors) {
        Some(summary) => TaskEnd::Error(summary),
        None => TaskEnd::Done,
    }
}

/// Finalizes a cancelled task, whatever errors it recorded before the cancel.
pub fn cancel_logging(errors: &[String]) -> (end: TaskEnd)
    ensures
        end is Cancelled,
{
    TaskEnd::Cancelled
}

/// Honours a cancel that landed while the task was queued: the task ends
/// here, cancelled, when one did, and runs otherwise (`None`).
pub fn check_cancelled(is_cancelled: bool) -> (end: Option<TaskEnd>)
    ensures
        is_cancelled <==> end is Some,
        end matches Some(e) ==> e is Cancelled,
{
    if is_cancelled {
        Some(TaskEnd::Cancelled)
    } else {
        None
    }
}

/// What a move across devices that skipped `n` entries of its copy says:
/// skipping is a choice rather than a failure, but the entries skipped never
/// reached the destination, so the whole original at `old` is kept.
pub open spec fn skipped_kept(n: nat, old: Seq<u8>) -> Seq<char> {
    "Skipped "@ + decimal(n) + (if n == 1 {
        " entry"@
    } else {
        " entries"@
    }) + ", so the original "@ + quoted_text(old) + " was kept"@
}

/// The first stage of a move across devices, once the copy of the source at
/// `old_path` is made: like `mv`, the source is removed only after a copy
/// with no errors and no entry skipped (`None`: go on). Otherwise the move
/// ends with the errors, or with the count of entries a standing "skip all"
/// left alone, and keeps the whole source and the partial destination.
pub fn after_cross_device_copy(errors: Vec<String>, skipped: u64, old_path: &[u8]) -> (end: Option<
    TaskEnd,
>)
    ensures
        errors@.len() > 0 ==> (end matches Some(e) && e@ == end_of(texts(errors@))),
        errors@.len() == 0 && skipped > 0 ==> (end matches Some(e) && e@ == TaskEndView::Error(
            skipped_kept(skipped as nat, old_path@),
        )),
        errors@.len() == 0 && skipped == 0 ==> end is None,
{
    if errors.len() > 0 {
        return Some(finalize(errors));
    }
    if skipped == 0 {
        return None;
    }
    let mut message = String::from_str("Skipped ");
    push_count(&mut message, skipped);
    if skipped == 1 {
        message.append(" entry");
    } else {
        message.append(" entries");
    }
    message.append(", so the original ");
    let old = compact(old_path);
    message.append(old.as_str());
    message.append(" was kept");
    Some(TaskEnd::Error(message))
}

/// What a move that failed to remove its original says: the destination is
/// whole, only the cleanup failed.
pub open spec fn removal_failure(old: Seq<u8>, new: Seq<u8>, summary: Seq<char>) -> Seq<char> {
    "Failed to remove the original "@ + quoted_text(old) + " once it was moved to "@
        + quoted_text(new) + ": "@ + summary
}

/// The last stage of a move across devices: how it ends once the source at
/// `old_path` was removed, with the `errors` the removal recorded.
pub fn after_source_removal(old_path: &[u8], new_path: &[u8], errors: Vec<String>) -> (end:
    TaskEnd)
    ensures
        end@ == match summary(texts(errors@)) {
            Some(s) => TaskEndView::Error(removal_failure(old_path@, new_path@, s)),
            None => TaskEndView::Done,
        },
{
    match summarize(errors) {
        Some(summary) => {
            let mut message = String::from_str("Failed to remove the original ");
            let old = compact(old_path);
            message.append(old.as_str());
            message.append(" once it was moved to ");
            let new = compact(new_path);
            message.append(new.as_str());
            message.append(": ");
            message.append(summary.as_str());
            TaskEnd::Error(message)
        },
        None => TaskEnd::Done,
    }
}

} // verus!
