//! The progress of one file: bytes done out of bytes expected.

use vstd::prelude::*;

verus! {

/// Bytes done and bytes expected for one file. The count only grows.
#[derive(Clone, Copy, Debug, PartialEq, Eq, Structural)]
pub struct Progress {
    position: u64,
    length: u64,
}

impl Progress {
    pub closed spec fn pos(&self) -> nat {
        self.position as nat
    }

    pub closed spec fn len(&self) -> nat {
        self.length as nat
    }

    /// No bytes yet of `length`.
    pub fn new(length: u64) -> (r: Progress)
        ensures
            r.pos() == 0,
            r.len() == length,
    {
        Progress { position: 0, length }
    }

    /// Starts at `position` bytes of `length`, as when a file is resumed.
    pub fn starting_at(length: u64, position: u64) -> (r: Progress)
        ensures
            r.pos() == position,
            r.len() == length,
    {
        Progress { position, length }
    }

    /// Counts `n` more bytes (held at the largest `u64`).
    pub fn advance(&mut self, n: u64)
        ensures
            final(self).len() == old(self).len(),
            final(self).pos() == if old(self).pos() + n <= u64::MAX { old(self).pos() + n } else { u64::MAX as int },
            final(self).pos() >= old(self).pos(),
    {
        self.position = if self.position <= u64::MAX - n { self.position + n } else { u64::MAX };
    }

    /// Sets the expected length; the count stays.
    pub fn set_length(&mut self, length: u64)
        ensures
            final(self).len() == length,
            final(self).pos() == old(self).pos(),
    {
        self.length = length;
    }

    /// Bytes done.
    pub fn position(&self) -> (r: u64)
        ensures
            r == self.pos(),
    {
        self.position
    }

    /// Bytes expected.
    pub fn length(&self) -> (r: u64)
        ensures
            r == self.len(),
    {
        self.length
    }

    /// Whether every expected byte is done.
    pub fn is_complete(&self) -> (r: bool)
        ensures
            r == (self.len() > 0 && self.pos() >= self.len()),
    {
        self.length > 0 && self.position >= self.length
    }
}

} // verus!
