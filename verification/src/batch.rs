//! The batch writer: an ordered buffer of catalog entries plus the time of
//! the last flush. Appending never touches I/O; the buffer asks to be
//! flushed once it reaches its maximum count or once the flush interval has
//! passed, whichever comes first, bounding both memory and the latency to
//! durability.

use vstd::prelude::*;

verus! {

use crate::catalog::SongFile;

/// The batch size that triggers a flush.
pub const MAX_BATCH: usize = 50;

/// The elapsed time since the last flush that triggers a flush.
pub const FLUSH_INTERVAL_MILLIS: u64 = 30000;

/// An in-memory batch of catalog entries awaiting a flush.
pub struct BatchWriter {
    pub entries: Vec<SongFile>,
    pub last_flush_millis: u64,
    pub max_batch: usize,
    pub flush_interval_millis: u64,
}

impl BatchWriter {
    /// The flush condition: the batch is full, or the flush interval has
    /// passed since the last flush.
    pub open spec fn flush_due(&self, now_millis: u64) -> bool {
        self.entries@.len() >= self.max_batch || now_millis - self.last_flush_millis
            > self.flush_interval_millis
    }

    /// An empty batch whose time trigger starts now.
    pub fn new(max_batch: usize, flush_interval_millis: u64, now_millis: u64) -> (r: BatchWriter)
        requires
            max_batch >= 1,
        ensures
            r.entries@ == Seq::<SongFile>::empty(),
            r.last_flush_millis == now_millis,
            r.max_batch == max_batch,
            r.flush_interval_millis == flush_interval_millis,
    {
        BatchWriter { entries: Vec::new(), last_flush_millis: now_millis, max_batch, flush_interval_millis }
    }

    /// Appends one entry; constant-time, no I/O.
    pub fn append(&mut self, entry: SongFile)
        requires
            old(self).entries@.len() < old(self).max_batch,
        ensures
            final(self).entries@ == old(self).entries@.push(entry),
            final(self).last_flush_millis == old(self).last_flush_millis,
            final(self).max_batch == old(self).max_batch,
            final(self).flush_interval_millis == old(self).flush_interval_millis,
    {
        self.entries.push(entry);
    }

    pub fn len(&self) -> (n: usize)
        ensures
            n == self.entries@.len(),
    {
        self.entries.len()
    }

    /// Decides the flush condition at the given time. Time is taken to be
    /// monotone: the clock never runs behind the last flush.
    pub fn should_flush(&self, now_millis: u64) -> (r: bool)
        requires
            now_millis >= self.last_flush_millis,
        ensures
            r == self.flush_due(now_millis),
    {
        self.entries.len() >= self.max_batch || now_millis - self.last_flush_millis
            > self.flush_interval_millis
    }

    /// The flush triggers, at the standard thresholds: a batch under 50
    /// entries within the 30-second window is never flushed; the 50th
    /// entry triggers a flush, and so does the window's expiry, whichever
    /// comes first.
    pub proof fn lemma_flush_triggers(&self, now_millis: u64)
        requires
            self.max_batch == MAX_BATCH,
            self.flush_interval_millis == FLUSH_INTERVAL_MILLIS,
            now_millis >= self.last_flush_millis,
        ensures
            self.entries@.len() < 50 && now_millis - self.last_flush_millis <= 30000
                ==> !self.flush_due(now_millis),
            self.entries@.len() >= 50 ==> self.flush_due(now_millis),
            now_millis - self.last_flush_millis > 30000 ==> self.flush_due(now_millis),
    {
    }

    /// Hands the accumulated batch out for flushing, leaving the buffer
    /// empty, and restarts the time trigger at the given time.
    pub fn take(&mut self, now_millis: u64) -> (r: Vec<SongFile>)
        ensures
            r@ == old(self).entries@,
            final(self).entries@ == Seq::<SongFile>::empty(),
            final(self).last_flush_millis == now_millis,
            final(self).max_batch == old(self).max_batch,
            final(self).flush_interval_millis == old(self).flush_interval_millis,
    {
        let mut r: Vec<SongFile> = Vec::new();
        core::mem::swap(&mut r, &mut self.entries);
        self.last_flush_millis = now_millis;
        r
    }
}

} // verus!
