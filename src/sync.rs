use vstd::prelude::*;

verus! {

/// Number of unused addresses checked past the highest used one.
pub const DEFAULT_GAP_LIMIT: u32 = 100;

/// First hardened child index; scanning never reaches it.
pub const HARDENED_START: u32 = 0x8000_0000;

/// Scan state for one chain of a sync: which index to query next, the highest
/// index found with history, and the gap limit.
#[derive(Debug, Clone, Copy, PartialEq, Eq)]
pub struct ScanWindow {
    next: u32,
    last_used: Option<u32>,
    gap: u32,
}

/// One past the last index the window must query.
pub open spec fn window_end(last_used: Option<u32>, gap: u32) -> int {
    match last_used {
        None => gap as int,
        Some(u) => u + 1 + gap,
    }
}

impl ScanWindow {
    pub closed spec fn next_spec(&self) -> u32 {
        self.next
    }

    pub closed spec fn last_used_spec(&self) -> Option<u32> {
        self.last_used
    }

    pub closed spec fn gap_spec(&self) -> u32 {
        self.gap
    }

    /// Whether another index must be queried.
    pub open spec fn pending_spec(&self) -> bool {
        self.next_spec() < window_end(self.last_used_spec(), self.gap_spec()) && self.next_spec()
            < HARDENED_START
    }

    /// A window over a chain with nothing found yet.
    pub fn new(gap: u32) -> (r: Self)
        ensures
            r.next_spec() == 0,
            r.last_used_spec() is None,
            r.gap_spec() == gap,
    {
        ScanWindow { next: 0, last_used: None, gap }
    }

    /// The index whose script is to be queried next.
    pub fn next_index(&self) -> (r: u32)
        ensures
            r == self.next_spec(),
    {
        self.next
    }

    /// The highest index found with history.
    pub fn last_used(&self) -> (r: Option<u32>)
        ensures
            r == self.last_used_spec(),
    {
        self.last_used
    }

    pub fn pending(&self) -> (r: bool)
        ensures
            r == self.pending_spec(),
    {
        let end: u64 = match self.last_used {
            None => self.gap as u64,
            Some(u) => u as u64 + 1 + self.gap as u64,
        };
        (self.next as u64) < end && self.next < HARDENED_START
    }

    /// Records whether the script at the current index has history, moves to
    /// the next index, and says whether that one must be queried too. An index
    /// with history extends the window to `gap` indices past it.
    pub fn record(&mut self, has_history: bool) -> (r: bool)
        requires
            old(self).pending_spec(),
        ensures
            final(self).gap_spec() == old(self).gap_spec(),
            final(self).next_spec() == old(self).next_spec() + 1,
            final(self).last_used_spec() == if has_history {
                Some(old(self).next_spec())
            } else {
                old(self).last_used_spec()
            },
            r == final(self).pending_spec(),
    {
        if has_history {
            self.last_used = Some(self.next);
        }
        self.next = self.next + 1;
        self.pending()
    }
}

} // verus!
