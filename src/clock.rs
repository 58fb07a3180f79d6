//! The decisions behind a host clock: a single, cancelable, deferred firing.
//!
//! The host owns the timer itself and reports when it elapses. A `ClockHandle`
//! remembers the one firing it currently wants, so that scheduling again moves
//! that firing instead of adding a second one, a report for a superseded time is
//! ignored, and nothing fires once the handle has been disposed.

use vstd::prelude::*;

verus! {

/// The state of a clock: when it should fire next, if at all, and whether it
/// has been disposed.
pub struct ClockModel {
    pub due: Option<u64>,
    pub disposed: bool,
}

impl ClockModel {
    /// The state after asking for a firing `ms` after `now`: it replaces any
    /// pending firing; a disposed clock stays as it is.
    pub open spec fn delayed(self, now: u64, ms: u64) -> ClockModel {
        if self.disposed {
            self
        } else {
            ClockModel { due: Some((now + ms) as u64), disposed: false }
        }
    }

    /// Whether a host report at time `now` fires the clock's callback.
    pub open spec fn fires_at(self, now: u64) -> bool {
        !self.disposed && (self.due matches Some(d) && d <= now)
    }

    /// The state after a host report at time `now`.
    pub open spec fn after_report(self, now: u64) -> ClockModel {
        if self.fires_at(now) {
            ClockModel { due: None, disposed: self.disposed }
        } else {
            self
        }
    }

    /// The state after the handle is disposed.
    pub open spec fn disposed(self) -> ClockModel {
        ClockModel { due: None, disposed: true }
    }

    /// How many of the host reports at the times `reports`, taken in order,
    /// fire the callback.
    pub open spec fn firings(self, reports: Seq<u64>) -> nat
        decreases reports.len(),
    {
        if reports.len() == 0 {
            0
        } else {
            (if self.fires_at(reports[0]) { 1nat } else { 0nat }) + self.after_report(
                reports[0],
            ).firings(reports.drop_first())
        }
    }
}

/// A handle to a host clock that fires a callback once after a delay.
pub struct ClockHandle {
    due: Option<u64>,
    disposed: bool,
}

impl View for ClockHandle {
    type V = ClockModel;

    closed spec fn view(&self) -> ClockModel {
        ClockModel { due: self.due, disposed: self.disposed }
    }
}

impl ClockHandle {
    /// A clock with no pending firing.
    pub fn new() -> (r: Self)
        ensures
            r@ == (ClockModel { due: None, disposed: false }),
    {
        ClockHandle { due: None, disposed: false }
    }

    /// Ask for a firing `ms` after `now`, replacing any pending one. Returns the
    /// time to hand the host's timer, or `None` once the clock is disposed.
    pub fn delay(&mut self, now: u64, ms: u64) -> (r: Option<u64>)
        requires
            now + ms <= u64::MAX,
        ensures
            final(self)@ == old(self)@.delayed(now, ms),
            r == (if old(self)@.disposed { None } else { Some((now + ms) as u64) }),
    {
        if self.disposed {
            None
        } else {
            let due = now + ms;
            self.due = Some(due);
            Some(due)
        }
    }

    /// The host's timer elapsed at `now`: returns whether the callback is to run.
    /// It runs at most once per request, never early and never after disposal.
    pub fn fire(&mut self, now: u64) -> (r: bool)
        ensures
            r == old(self)@.fires_at(now),
            final(self)@ == old(self)@.after_report(now),
    {
        let due = self.due;
        match due {
            Some(d) => {
                if !self.disposed && d <= now {
                    self.due = None;
                    true
                } else {
                    false
                }
            },
            None => false,
        }
    }

    /// Dispose of the clock: any pending firing is dropped and none follows.
    pub fn dispose(&mut self)
        ensures
            final(self)@ == old(self)@.disposed(),
    {
        self.due = None;
        self.disposed = true;
    }

    /// The time of the pending firing, if any.
    pub fn pending(&self) -> (r: Option<u64>)
        ensures
            r == self@.due,
    {
        self.due
    }

    /// Whether the clock has been disposed.
    pub fn is_disposed(&self) -> (r: bool)
        ensures
            r == self@.disposed,
    {
        self.disposed
    }
}

/// A clock with no pending firing fires on no report.
proof fn lemma_idle_never_fires(c: ClockModel, reports: Seq<u64>)
    requires
        c.due is None,
    ensures
        c.firings(reports) == 0,
    decreases reports.len(),
{
    if reports.len() > 0 {
        lemma_idle_never_fires(c.after_report(reports[0]), reports.drop_first());
    }
}

/// A clock that is due at `d` fires exactly once over a run of host reports if
/// one of them comes at `d` or later, and otherwise not at all.
proof fn lemma_fires_once(c: ClockModel, d: u64, reports: Seq<u64>)
    requires
        !c.disposed,
        c.due == Some(d),
    ensures
        c.firings(reports) == (if exists|i: int| 0 <= i < reports.len() && d <= reports[i] {
            1nat
        } else {
            0nat
        }),
    decreases reports.len(),
{
    if reports.len() > 0 {
        let rest = reports.drop_first();
        if d <= reports[0] {
            lemma_idle_never_fires(c.after_report(reports[0]), rest);
        } else {
            lemma_fires_once(c, d, rest);
            if exists|i: int| 0 <= i < reports.len() && d <= reports[i] {
                let i = choose|i: int| 0 <= i < reports.len() && d <= reports[i];
                assert(rest[i - 1] == reports[i]);
            }
            if exists|i: int| 0 <= i < rest.len() && d <= rest[i] {
                let i = choose|i: int| 0 <= i < rest.len() && d <= rest[i];
                assert(reports[i + 1] == rest[i]);
            }
        }
    }
}

/// Scheduling again before the clock fires replaces the first request: the
/// clock then fires exactly once, on the first host report at or after the
/// second requested time, and never for the first one alone.
pub proof fn lemma_delay_replaces(
    c: ClockModel,
    now1: u64,
    ms1: u64,
    now2: u64,
    ms2: u64,
    reports: Seq<u64>,
)
    requires
        !c.disposed,
        now1 + ms1 <= u64::MAX,
        now2 + ms2 <= u64::MAX,
    ensures
        c.delayed(now1, ms1).delayed(now2, ms2) == c.delayed(now2, ms2),
        c.delayed(now1, ms1).delayed(now2, ms2).firings(reports) == (if exists|i: int|
            0 <= i < reports.len() && now2 + ms2 <= reports[i] {
            1nat
        } else {
            0nat
        }),
        forall|t: u64|
            t < now2 + ms2 ==> !#[trigger] c.delayed(now1, ms1).delayed(now2, ms2).fires_at(t),
{
    lemma_fires_once(c.delayed(now2, ms2), (now2 + ms2) as u64, reports);
}

/// A disposed clock never fires, whatever the host reports.
pub proof fn lemma_disposed_never_fires(c: ClockModel, reports: Seq<u64>)
    ensures
        c.disposed().firings(reports) == 0,
{
    lemma_idle_never_fires(c.disposed(), reports);
}

} // verus!
