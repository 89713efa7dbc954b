//! Reading a value of variable length, such as an extended attribute or the
//! list of their names: its size is asked for first (a read into an empty
//! buffer), then it is read into a buffer of that size. `ERANGE` means it grew
//! in between, so it is measured again, a bounded number of times. A value
//! measured empty is empty: reading into an empty buffer would only measure
//! it again.
//!
//! The caller makes the reads (`SizedStep`) and hands back what they gave.

use vstd::prelude::*;

use crate::copying::IoFailure;

verus! {

/// How many times a size-then-read is tried when the value keeps growing.
pub const SIZE_ATTEMPTS: usize = 3;

/// The system's "result out of range", which a read into a buffer too small
/// for the value gives.
pub const ERANGE: i32 = 34;

/// What the caller does next.
pub enum SizedStep {
    /// Ask for the value's size, with an empty buffer.
    Measure,
    /// Read the value into a buffer of `n` bytes.
    Read(usize),
    /// The value is the first `n` bytes read.
    Value(usize),
    /// The value is empty.
    Empty,
    /// Reading failed with this error.
    Failed(IoFailure),
}

/// Where a sized read stands: how many measurements were made, and the size
/// of the buffer being read into, while one is.
pub struct SizedRead {
    attempts: usize,
    reading: Option<usize>,
}

impl SizedRead {
    pub closed spec fn attempts(&self) -> nat {
        self.attempts as nat
    }

    pub closed spec fn reading(&self) -> Option<usize> {
        self.reading
    }

    /// A read not started; the first step is to measure.
    pub fn new() -> (r: (Self, SizedStep))
        ensures
            r.0.attempts() == 0,
            r.0.reading() is None,
            r.1 is Measure,
    {
        (SizedRead { attempts: 0, reading: None }, SizedStep::Measure)
    }

    /// What measuring gave: its failure ends the read, a size of nothing is
    /// an empty value, and another is read into a buffer that large.
    pub fn measured(&mut self, size: Result<usize, IoFailure>) -> (step: SizedStep)
        requires
            old(self).reading() is None,
            old(self).attempts() < SIZE_ATTEMPTS,
        ensures
            final(self).attempts() == old(self).attempts() + 1,
            match size {
                Err(error) => step == SizedStep::Failed(error) && final(self).reading() is None,
                Ok(n) => if n == 0 {
                    step is Empty && final(self).reading() is None
                } else {
                    step == SizedStep::Read(n) && final(self).reading() == Some(n)
                },
            },
    {
        self.attempts = self.attempts + 1;
        match size {
            Err(error) => SizedStep::Failed(error),
            Ok(n) => {
                if n == 0 {
                    SizedStep::Empty
                } else {
                    self.reading = Some(n);
                    SizedStep::Read(n)
                }
            },
        }
    }

    /// What reading into the buffer gave: the bytes read are the value; a
    /// value that grew since it was measured is measured again, unless it
    /// was measured `SIZE_ATTEMPTS` times already, when the read fails with
    /// that last error; any other failure ends the read.
    pub fn read(&mut self, got: Result<usize, IoFailure>) -> (step: SizedStep)
        requires
            old(self).reading() is Some,
            old(self).attempts() <= SIZE_ATTEMPTS,
        ensures
            final(self).attempts() == old(self).attempts(),
            final(self).reading() is None,
            match got {
                Ok(n) => step == SizedStep::Value(n),
                Err(error) => if (error matches IoFailure::Os { code, .. } && code == ERANGE)
                    && old(self).attempts() < SIZE_ATTEMPTS {
                    step is Measure
                } else {
                    step == SizedStep::Failed(error)
                },
            },
    {
        self.reading = None;
        match got {
            Ok(n) => SizedStep::Value(n),
            Err(error) => {
                let grew = match &error {
                    IoFailure::Os { code, .. } => *code == ERANGE,
                    _ => false,
                };
                if grew && self.attempts < SIZE_ATTEMPTS {
                    SizedStep::Measure
                } else {
                    SizedStep::Failed(error)
                }
            },
        }
    }
}

} // verus!
