//! Rate limits: at most so many events per window of time, the rest is only counted.
//!
//! Points in time are nanoseconds on a clock that never goes back.

use vstd::prelude::*;

verus! {

/// The time from `since` to `now`, zero if `now` is earlier.
pub open spec fn elapsed(since: u64, now: u64) -> int {
    if now >= since {
        now - since
    } else {
        0
    }
}

/// The time from `since` to `now`, zero if `now` is earlier.
pub fn time_since(since: u64, now: u64) -> (r: u64)
    ensures
        r == elapsed(since, now),
{
    if now >= since {
        now - since
    } else {
        0
    }
}

/// A counter after `more` events; at the largest number it stands still.
pub open spec fn counted(n: u64, more: int) -> int {
    if n + more <= u64::MAX {
        n + more
    } else {
        u64::MAX as int
    }
}

/// A counter after `more` events; at the largest number it stands still.
pub fn count_up(n: u64, more: u64) -> (r: u64)
    ensures
        r == counted(n, more as int),
{
    if n <= u64::MAX - more {
        n + more
    } else {
        u64::MAX
    }
}

/// The events of the current window.
#[derive(Debug, Clone, Copy, PartialEq, Eq, Structural)]
pub struct Window {
    /// When the window began.
    pub start: u64,
    /// Events let through in it.
    pub used: u32,
    /// Events held back in it.
    pub dropped: u64,
}

/// What a limit says about an event.
#[derive(Debug, Clone, Copy, PartialEq, Eq, Structural)]
pub struct Verdict {
    /// Whether the event is let through.
    pub allowed: bool,
    /// A window ended in which this many events were held back.
    pub summary: Option<u64>,
}

/// A window that begins now.
pub open spec fn fresh(now: u64) -> Window {
    Window { start: now, used: 0, dropped: 0 }
}

/// The window that an event at `now` falls into.
pub open spec fn current(w: Window, now: u64, span: u64) -> Window {
    if elapsed(w.start, now) >= span {
        fresh(now)
    } else {
        w
    }
}

/// The window after an event at `now`: it is let through while fewer than `burst` were.
pub open spec fn admitted(w: Window, now: u64, span: u64, burst: u32) -> Window {
    let c = current(w, now, span);
    if c.used < burst {
        Window { used: (c.used + 1) as u32, ..c }
    } else {
        Window { dropped: counted(c.dropped, 1) as u64, ..c }
    }
}

/// What is said about an event at `now`.
pub open spec fn verdict(w: Window, now: u64, span: u64, burst: u32) -> Verdict {
    Verdict {
        allowed: current(w, now, span).used < burst,
        summary: if elapsed(w.start, now) >= span && w.dropped > 0 {
            Some(w.dropped)
        } else {
            None
        },
    }
}

impl Window {
    /// A window that begins now.
    pub fn new(now: u64) -> (r: Self)
        ensures
            r == fresh(now),
    {
        Window { start: now, used: 0, dropped: 0 }
    }

    /// Counts an event at `now`.
    pub fn count(&mut self, now: u64, span: u64, burst: u32) -> (r: Verdict)
        ensures
            *final(self) == admitted(*old(self), now, span, burst),
            r == verdict(*old(self), now, span, burst),
    {
        let mut summary: Option<u64> = None;
        if time_since(self.start, now) >= span {
            if self.dropped > 0 {
                summary = Some(self.dropped);
            }
            self.start = now;
            self.used = 0;
            self.dropped = 0;
        }
        if self.used < burst {
            self.used = self.used + 1;
            Verdict { allowed: true, summary }
        } else {
            self.dropped = count_up(self.dropped, 1);
            Verdict { allowed: false, summary }
        }
    }
}

/// The window after a row of events.
pub open spec fn after(w: Window, times: Seq<u64>, span: u64, burst: u32) -> Window
    decreases times.len(),
{
    if times.len() == 0 {
        w
    } else {
        admitted(after(w, times.drop_last(), span, burst), times.last(), span, burst)
    }
}

/// How many of a row of events are let through.
pub open spec fn allowed_of(w: Window, times: Seq<u64>, span: u64, burst: u32) -> nat
    decreases times.len(),
{
    if times.len() == 0 {
        0
    } else {
        allowed_of(w, times.drop_last(), span, burst) + if verdict(
            after(w, times.drop_last(), span, burst),
            times.last(),
            span,
            burst,
        ).allowed {
            1nat
        } else {
            0nat
        }
    }
}

/// Of the events that fall into one window, the first ones are let through until `burst` is
/// reached; no more than that.
pub proof fn at_most_burst_per_window(w: Window, times: Seq<u64>, span: u64, burst: u32)
    requires
        w.used <= burst,
        forall|i: int| 0 <= i < times.len() ==> elapsed(w.start, #[trigger] times[i]) < span,
    ensures
        allowed_of(w, times, span, burst) == if times.len() <= burst - w.used {
            times.len() as int
        } else {
            burst - w.used
        },
        after(w, times, span, burst).start == w.start,
        after(w, times, span, burst).used == w.used + allowed_of(w, times, span, burst),
    decreases times.len(),
{
    if times.len() > 0 {
        let init = times.drop_last();
        assert forall|i: int| 0 <= i < init.len() implies elapsed(w.start, #[trigger] init[i])
            < span by {
            assert(init[i] == times[i]);
        }
        at_most_burst_per_window(w, init, span, burst);
        assert(elapsed(w.start, times[times.len() - 1]) < span);
    }
}

/// However events fall, a window never holds more than `burst` of them.
pub proof fn window_stays_within_burst(w: Window, now: u64, span: u64, burst: u32)
    requires
        w.used <= burst,
    ensures
        admitted(w, now, span, burst).used <= burst,
{
}

/// Time is counted forwards only, and a counter goes up by what is added until it is full.
pub proof fn time_and_counters(since: u64, now: u64, n: u64, more: u64)
    ensures
        now >= since ==> since + elapsed(since, now) == now,
        now < since ==> elapsed(since, now) == 0,
        n + more <= u64::MAX ==> counted(n, more as int) == n + more,
        n + more > u64::MAX ==> counted(n, more as int) == u64::MAX,
{
}

/// Every event is either let through or counted as held back; one that falls into the window leaves
/// the window's begin alone and reports nothing.
pub proof fn every_event_is_accounted_for(w: Window, now: u64, span: u64, burst: u32)
    requires
        w.start <= now,
        now - w.start < span,
        w.dropped < u64::MAX,
    ensures
        ({
            let end = admitted(w, now, span, burst);
            let said = verdict(w, now, span, burst);
            &&& said.allowed == (w.used < burst)
            &&& said.summary is None
            &&& end.start == w.start
            &&& end.used - w.used == if said.allowed {
                1int
            } else {
                0
            }
            &&& end.dropped - w.dropped == if said.allowed {
                0int
            } else {
                1
            }
        }),
{
}

/// Once the window's time is over, the next event begins a new one: it is let through like the first
/// of all, and how many were held back in the old window is reported, if any were.
pub proof fn a_new_window_begins(w: Window, now: u64, span: u64, burst: u32)
    requires
        w.start + span <= now,
        burst > 0,
    ensures
        verdict(w, now, span, burst).allowed,
        admitted(w, now, span, burst) == (Window { start: now, used: 1, dropped: 0 }),
        w.dropped > 0 ==> verdict(w, now, span, burst).summary == Some(w.dropped),
        w.dropped == 0 ==> verdict(w, now, span, burst).summary is None,
        fresh(now) == (Window { start: now, used: 0, dropped: 0 }),
{
}

} // verus!
