//! Reloading when an input file changes on disk (`--watch`): when a change
//! has settled enough to act on, and how often the files are looked at.
use vstd::prelude::*;

verus! {

/// A file's modification time as whole seconds and nanoseconds since the
/// Unix epoch, or `None` when it could not be read.
pub type Stamp = Option<(u64, u32)>;

/// The ticks between two looks at the files' modification times.
pub const WATCH_POLL_EVERY: u32 = 5;

/// Whether two stamps are the same reading.
pub fn same_stamp(a: Stamp, b: Stamp) -> (res: bool)
    ensures
        res == (a == b),
{
    match (a, b) {
        (None, None) => true,
        (Some((s1, n1)), Some((s2, n2))) => s1 == s2 && n1 == n2,
        _ => false,
    }
}

/// The debounce of a watch: the stamps the report was last built from, and a
/// change seen once but not yet confirmed. A write in progress changes the
/// stamps more than once, so a change is acted on only once the same stamps
/// have been seen on two looks in a row.
#[derive(Debug, Clone, Copy, PartialEq, Eq)]
pub struct WatchState {
    pub baseline: (Stamp, Stamp),
    pub pending: Option<(Stamp, Stamp)>,
}

impl WatchState {
    /// The state after a look finds the stamps `now`, and whether to reload:
    /// the stamps the report was built from clear any pending change; new
    /// stamps seen for the second time in a row become the baseline and ask
    /// for a reload; new stamps seen for the first time wait.
    pub open spec fn observed(self, now: (Stamp, Stamp)) -> (WatchState, bool) {
        if now == self.baseline {
            (WatchState { baseline: self.baseline, pending: None }, false)
        } else if self.pending == Some(now) {
            (WatchState { baseline: now, pending: None }, true)
        } else {
            (WatchState { baseline: self.baseline, pending: Some(now) }, false)
        }
    }

    /// Start watching files whose stamps are `first` and `second` now.
    pub fn new(first: Stamp, second: Stamp) -> (res: WatchState)
        ensures
            res == (WatchState { baseline: (first, second), pending: None }),
    {
        WatchState { baseline: (first, second), pending: None }
    }

    /// Take a look: the files' stamps are `first` and `second`. Returns
    /// whether to reload now.
    pub fn observe(&mut self, first: Stamp, second: Stamp) -> (reload: bool)
        ensures
            (*final(self), reload) == old(self).observed((first, second)),
    {
        if same_stamp(first, self.baseline.0) && same_stamp(second, self.baseline.1) {
            self.pending = None;
            return false;
        }
        let confirmed = match self.pending {
            Some((p1, p2)) => same_stamp(first, p1) && same_stamp(second, p2),
            None => false,
        };
        if confirmed {
            self.baseline = (first, second);
            self.pending = None;
            true
        } else {
            self.pending = Some((first, second));
            false
        }
    }
}

/// The tick counter after one more tick, wrapping around, and whether this
/// tick is one on which the files are looked at.
pub fn poll_due(ticks: u32) -> (res: (u32, bool))
    ensures
        res.0 == (if ticks == u32::MAX {
            0
        } else {
            ticks + 1
        }),
        res.1 == (res.0 % WATCH_POLL_EVERY == 0),
{
    let next = if ticks == u32::MAX { 0 } else { ticks + 1 };
    (next, next % WATCH_POLL_EVERY == 0)
}

/// A change is acted on exactly once: new stamps are confirmed on the second
/// look that finds them, and the looks after that, finding them again, ask
/// for nothing more. Stamps that never change never ask for a reload.
pub proof fn lemma_change_reloads_once(state: WatchState, now: (Stamp, Stamp))
    ensures
        now == state.baseline ==> !state.observed(now).1,
        now != state.baseline ==> !state.observed(now).1 || state.pending == Some(now),
        now != state.baseline ==> state.observed(now).0.observed(now).1 || state.observed(now).1,
        state.observed(now).1 ==> !state.observed(now).0.observed(now).1,
{
}

} // verus!
