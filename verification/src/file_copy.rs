//! The decisions of copying one file's bytes: read a chunk, write it whole,
//! count it, and again, until the source is exhausted, a read or a write
//! fails, or the task is cancelled. Like an interrupted `cp`, a cancel leaves
//! the partially written destination in place.
//!
//! The caller reads and writes (`ChunkAction`) and hands back what the system
//! gave (`ChunkEvent`).

use vstd::prelude::*;

use crate::copying::{
    failed_transfer_text, failure_text, read_failure, write_failure_text, written_failure, IoFailure,
    Paths, WriteFailure,
};
use crate::transfer::quoted_text;

verus! {

/// What the caller hands the copy: that it is ready to start, what a read
/// gave (the number of bytes read, `0` at the end of the source), or how
/// writing the chunk read went.
pub enum ChunkEvent {
    Ready,
    Read(Result<usize, IoFailure>),
    Written(Result<(), IoFailure>),
}

/// What the copy asks for next.
pub enum ChunkAction {
    /// Read the next chunk of the source.
    Read,
    /// Write, whole, the first `n` bytes just read.
    Write(usize),
    /// The source is copied; a move restores the source's times on the copy
    /// now, since writing is what moves its modification time.
    Finish { restore_times: bool },
    /// The task was cancelled: the partial copy is left in place.
    Stop,
    /// Reading or writing failed, with the message to record; the copy of
    /// this file ends there.
    Failed(String),
}

/// Where a file copy stands.
#[derive(Clone, Copy, Debug, PartialEq, Eq, Structural)]
pub enum Phase {
    /// Not started, or the last chunk written: a read comes next.
    Idle,
    /// Waiting for a read.
    Reading,
    /// Waiting for the write of `n` bytes.
    Writing(usize),
    /// Finished, failed or cancelled.
    Ended,
}

/// The copy of one file's bytes from `paths.old` to `paths.new`: whether it
/// is the copy a move makes, whether the file is staged to replace another
/// (which changes how a failed write reads), where it stands, and how many
/// bytes were written.
pub struct FileCopy {
    is_move: bool,
    staged: bool,
    paths: Paths,
    phase: Phase,
    copied: u64,
}

/// The message for a failed read of the source `old`.
pub open spec fn failed_read(old: Seq<u8>, error: IoFailure) -> Seq<char> {
    "Failed to read "@ + quoted_text(old) + ": "@ + failure_text(error)
}

/// The message for a failed write of the copy.
pub open spec fn failed_write(
    staged: bool,
    is_move: bool,
    old: Seq<u8>,
    new: Seq<u8>,
    error: IoFailure,
) -> Seq<char> {
    if staged {
        failed_transfer_text(is_move, old, new, failure_text(error))
    } else {
        write_failure_text(WriteFailure::Write, new, error)
    }
}

impl FileCopy {
    pub closed spec fn is_move(&self) -> bool {
        self.is_move
    }

    pub closed spec fn staged(&self) -> bool {
        self.staged
    }

    pub closed spec fn old_path(&self) -> Seq<u8> {
        self.paths.old@
    }

    pub closed spec fn new_path(&self) -> Seq<u8> {
        self.paths.new@
    }

    pub closed spec fn phase(&self) -> Phase {
        self.phase
    }

    /// The bytes written so far: the task's progress on this file.
    pub closed spec fn copied(&self) -> nat {
        self.copied as nat
    }

    /// Whether `event` is one the copy waits for where it stands.
    pub open spec fn expects(&self, event: ChunkEvent) -> bool {
        match event {
            ChunkEvent::Ready => self.phase() == Phase::Idle,
            ChunkEvent::Read(_) => self.phase() == Phase::Reading,
            ChunkEvent::Written(_) => self.phase() is Writing,
        }
    }

    /// The copy of the file at `paths.old` to `paths.new`, not started.
    pub fn new(is_move: bool, staged: bool, paths: Paths) -> (c: Self)
        ensures
            c.is_move() == is_move,
            c.staged() == staged,
            c.old_path() == paths.old@,
            c.new_path() == paths.new@,
            c.phase() == Phase::Idle,
            c.copied() == 0,
    {
        FileCopy { is_move, staged, paths, phase: Phase::Idle, copied: 0 }
    }

    /// The bytes written so far.
    pub fn progress(&self) -> (n: u64)
        ensures
            n == self.copied(),
    {
        self.copied
    }

    /// The next step, given `event` and whether the task was `cancelled`,
    /// which is heeded before each read: a chunk written is counted, then
    /// the next is read unless the task was cancelled; a read of nothing
    /// finishes the copy, a read of `n` bytes has them written, and a failed
    /// read or write ends the copy with its message.
    pub fn step(&mut self, cancelled: bool, event: ChunkEvent) -> (a: ChunkAction)
        requires
            old(self).expects(event),
            event matches ChunkEvent::Written(Ok(())) ==> (old(self).phase() matches Phase::Writing(
                n,
            ) && old(self).copied() + n <= u64::MAX),
        ensures
            final(self).is_move() == old(self).is_move(),
            final(self).staged() == old(self).staged(),
            final(self).old_path() == old(self).old_path(),
            final(self).new_path() == old(self).new_path(),
            match event {
                ChunkEvent::Ready => final(self).copied() == old(self).copied() && if cancelled {
                    a is Stop && final(self).phase() == Phase::Ended
                } else {
                    a is Read && final(self).phase() == Phase::Reading
                },
                ChunkEvent::Written(Ok(())) => (old(self).phase() matches Phase::Writing(n)
                    && final(self).copied() == old(self).copied() + n) && if cancelled {
                    a is Stop && final(self).phase() == Phase::Ended
                } else {
                    a is Read && final(self).phase() == Phase::Reading
                },
                ChunkEvent::Written(Err(error)) => final(self).copied() == old(self).copied()
                    && final(self).phase() == Phase::Ended && (a matches ChunkAction::Failed(m)
                    && m@ == failed_write(
                    old(self).staged(),
                    old(self).is_move(),
                    old(self).old_path(),
                    old(self).new_path(),
                    error,
                )),
                ChunkEvent::Read(Ok(n)) => final(self).copied() == old(self).copied() && if n == 0 {
                    (a matches ChunkAction::Finish { restore_times } && restore_times
                        == old(self).is_move()) && final(self).phase() == Phase::Ended
                } else {
                    a == ChunkAction::Write(n) && final(self).phase() == Phase::Writing(n)
                },
                ChunkEvent::Read(Err(error)) => final(self).copied() == old(self).copied()
                    && final(self).phase() == Phase::Ended && (a matches ChunkAction::Failed(m)
                    && m@ == failed_read(old(self).old_path(), error)),
            },
    {
        match event {
            ChunkEvent::Ready => self.next_read(cancelled),
            ChunkEvent::Written(Ok(())) => {
                if let Phase::Writing(n) = self.phase {
                    self.copied = self.copied + n as u64;
                }
                self.next_read(cancelled)
            },
            ChunkEvent::Written(Err(error)) => {
                self.phase = Phase::Ended;
                ChunkAction::Failed(
                    written_failure(WriteFailure::Write, self.staged, self.is_move, &self.paths, &error),
                )
            },
            ChunkEvent::Read(Ok(n)) => {
                if n == 0 {
                    self.phase = Phase::Ended;
                    ChunkAction::Finish { restore_times: self.is_move }
                } else {
                    self.phase = Phase::Writing(n);
                    ChunkAction::Write(n)
                }
            },
            ChunkEvent::Read(Err(error)) => {
                self.phase = Phase::Ended;
                ChunkAction::Failed(read_failure(false, self.paths.old.as_slice(), &error))
            },
        }
    }

    /// Reads the next chunk, unless the task was cancelled.
    fn next_read(&mut self, cancelled: bool) -> (a: ChunkAction)
        ensures
            final(self).is_move() == old(self).is_move(),
            final(self).staged() == old(self).staged(),
            final(self).old_path() == old(self).old_path(),
            final(self).new_path() == old(self).new_path(),
            final(self).copied() == old(self).copied(),
            cancelled ==> a is Stop && final(self).phase() == Phase::Ended,
            !cancelled ==> a is Read && final(self).phase() == Phase::Reading,
    {
        if cancelled {
            self.phase = Phase::Ended;
            ChunkAction::Stop
        } else {
            self.phase = Phase::Reading;
            ChunkAction::Read
        }
    }
}

} // verus!
