use vstd::prelude::*;

verus! {

/// The presentation loop's state machine: `Running` until the exit
/// signal is observed, then `Exiting`, which is terminal.
#[derive(Clone, Copy, PartialEq, Eq, Structural, Debug)]
pub enum LoopState {
    /// The loop presents a frame each tick.
    Running,
    /// The exit signal was observed; no further frame is presented.
    Exiting,
}

/// What the caller must do after one tick.
#[derive(Clone, Copy, PartialEq, Eq, Structural, Debug)]
pub enum TickAction {
    /// Block until the clock reaches `wait_until` microseconds, then
    /// present the framebuffer to the display sink.
    Present {
        /// The tick boundary to sleep to before presenting.
        wait_until: u64,
    },
    /// The loop has ended; present nothing.
    Stop,
}

/// The deadline after a tick observed at `now`: one interval past the
/// later of the schedule and the clock. A late tick restarts the
/// schedule from `now` (a best-effort fixed-rate cap, with no catch-up
/// burst after an overrun).
pub open spec fn next_deadline(deadline: int, now: int, interval: int) -> int {
    (if now > deadline {
        now
    } else {
        deadline
    }) + interval
}

/// The deadline `m` on-schedule ticks after it stood at `d0`: each such
/// tick is observed at or before its deadline, as when the loop has no
/// redraw work and only throttles presentation.
pub open spec fn deadline_after(d0: int, interval: int, m: nat) -> int
    decreases m,
{
    if m == 0 {
        d0
    } else {
        deadline_after(d0, interval, (m - 1) as nat) + interval
    }
}

/// A tick observed on schedule advances the deadline by exactly one
/// interval: the schedule never drifts early.
pub proof fn lemma_on_schedule_tick(deadline: int, now: int, interval: int)
    requires
        now <= deadline,
    ensures
        next_deadline(deadline, now, interval) == deadline + interval,
{
}

/// Frame-rate bound: after `m` on-schedule ticks the deadline stands
/// exactly `m` intervals past where it began. Each tick's present
/// blocks until the deadline of its turn, so over `m` such ticks at
/// least `m` intervals of wall time pass.
pub proof fn lemma_fixed_rate(d0: int, interval: int, m: nat)
    ensures
        deadline_after(d0, interval, m) == d0 + m * interval,
    decreases m,
{
    if m > 0 {
        let k = (m - 1) as nat;
        lemma_fixed_rate(d0, interval, k);
        assert(deadline_after(d0, interval, m) == d0 + k * interval + interval);
        assert(k * interval + interval == m * interval) by (nonlinear_arith)
            requires
                m == k + 1,
        ;
    } else {
        assert(m * interval == 0) by (nonlinear_arith)
            requires
                m == 0,
        ;
    }
}

/// Owns the frame pacing and the exit decision. Each tick it either
/// tells the caller to sleep to the next tick boundary and present, or
/// that the loop has ended. The framebuffer itself, the display sink
/// and the clock stay with the caller.
pub struct PresentationLoop {
    state: LoopState,
    interval: u64,
    deadline: u64,
}

impl PresentationLoop {
    /// Current state of the loop.
    pub closed spec fn state(&self) -> LoopState {
        self.state
    }

    /// The fixed tick interval, in microseconds.
    pub closed spec fn interval(&self) -> u64 {
        self.interval
    }

    /// The next scheduled tick boundary, in clock microseconds.
    pub closed spec fn deadline(&self) -> u64 {
        self.deadline
    }

    /// The next scheduled tick boundary, for callers that must check
    /// the clock arithmetic stays in range before a tick.
    pub fn deadline_micros(&self) -> (r: u64)
        ensures
            r == self.deadline(),
    {
        self.deadline
    }

    /// The fixed tick interval.
    pub fn interval_micros(&self) -> (r: u64)
        ensures
            r == self.interval(),
    {
        self.interval
    }

    /// A running loop whose first tick boundary stands one interval
    /// after `now`.
    pub fn new(now: u64, interval_micros: u64) -> (r: PresentationLoop)
        requires
            now + interval_micros <= u64::MAX,
        ensures
            r.state() == LoopState::Running,
            r.interval() == interval_micros,
            r.deadline() == now + interval_micros,
    {
        PresentationLoop { state: LoopState::Running, interval: interval_micros, deadline: now + interval_micros }
    }

    /// One tick, observed at clock time `now` with the display sink's
    /// exit signal already polled. If the signal is set, or the loop
    /// had already ended, the loop moves to its terminal state and
    /// stops. Otherwise the caller is told to sleep until the scheduled
    /// boundary and present, and the schedule advances by one interval
    /// past the later of the boundary and `now`.
    pub fn on_tick(&mut self, now: u64, exit_signaled: bool) -> (a: TickAction)
        requires
            old(self).deadline() + old(self).interval() <= u64::MAX,
            now + old(self).interval() <= u64::MAX,
        ensures
            final(self).interval() == old(self).interval(),
            (exit_signaled || old(self).state() == LoopState::Exiting) ==> a == TickAction::Stop
                && final(self).state() == LoopState::Exiting
                && final(self).deadline() == old(self).deadline(),
            (!exit_signaled && old(self).state() == LoopState::Running) ==> a
                == (TickAction::Present { wait_until: old(self).deadline() })
                && final(self).state() == LoopState::Running
                && final(self).deadline() == next_deadline(
                    old(self).deadline() as int,
                    now as int,
                    old(self).interval() as int,
                ),
    {
        if exit_signaled || self.state == LoopState::Exiting {
            self.state = LoopState::Exiting;
            TickAction::Stop
        } else {
            let boundary = self.deadline;
            let base = if now > self.deadline {
                now
            } else {
                self.deadline
            };
            self.deadline = base + self.interval;
            TickAction::Present { wait_until: boundary }
        }
    }
}

} // verus!
