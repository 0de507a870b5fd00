//! The counters of one run.

use vstd::prelude::*;

verus! {

/// What a run has done so far: files written, files left alone because an
/// up-to-date copy was found, and the declared bytes of the files written.
#[derive(Clone, Copy, Debug, PartialEq, Eq, Structural)]
pub struct Stats {
    pub images_count: u64,
    pub images_bytes: usize,
    pub images_skipped: u64,
}

/// The counters as unbounded numbers.
pub struct Tally {
    pub written: nat,
    pub skipped: nat,
    pub bytes: nat,
}

impl Tally {
    /// Nothing written, nothing skipped.
    pub open spec fn zero() -> Tally {
        Tally { written: 0, skipped: 0, bytes: 0 }
    }

    /// The tally after one more file was left alone.
    pub open spec fn skip(self) -> Tally {
        Tally { skipped: self.skipped + 1, ..self }
    }

    /// The tally after one more file of `length` declared bytes was written.
    pub open spec fn write(self, length: nat) -> Tally {
        Tally { written: self.written + 1, bytes: self.bytes + length, ..self }
    }

    /// Whether the machine's counters can hold this tally.
    pub open spec fn fits(self) -> bool {
        self.written <= u64::MAX && self.skipped <= u64::MAX && self.bytes <= usize::MAX
    }
}

impl View for Stats {
    type V = Tally;

    open spec fn view(&self) -> Tally {
        Tally {
            written: self.images_count as nat,
            skipped: self.images_skipped as nat,
            bytes: self.images_bytes as nat,
        }
    }
}

impl Stats {
    /// The counters at the start of a run.
    pub fn new() -> (stats: Stats)
        ensures
            stats@ == Tally::zero(),
    {
        Stats { images_count: 0, images_bytes: 0, images_skipped: 0 }
    }

    /// Counts a file that was left alone. Gives `false`, and changes nothing,
    /// when the counter is at its limit.
    pub fn record_skipped(&mut self) -> (counted: bool)
        ensures
            counted == old(self)@.skip().fits(),
            counted ==> final(self)@ == old(self)@.skip(),
            !counted ==> *final(self) == *old(self),
    {
        if self.images_skipped == u64::MAX {
            return false;
        }
        self.images_skipped += 1;
        true
    }

    /// Counts a file that was written, with its declared length. Gives
    /// `false`, and changes nothing, when a counter cannot hold the result.
    pub fn record_written(&mut self, length: usize) -> (counted: bool)
        ensures
            counted == old(self)@.write(length as nat).fits(),
            counted ==> final(self)@ == old(self)@.write(length as nat),
            !counted ==> *final(self) == *old(self),
    {
        if self.images_count == u64::MAX || length > usize::MAX - self.images_bytes {
            return false;
        }
        self.images_count += 1;
        self.images_bytes += length;
        true
    }
}

} // verus!
