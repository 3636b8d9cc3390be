//! The tick scheduler.
//!
//! A fixed-period timer interrupt drives the whole pipeline.  On entry
//! the handler clears the timer condition, immediately re-arms it for one
//! period from the fire time — before any of the tick body runs, so a
//! slow body never delays the next tick's nominal start — and feeds the
//! watchdog.  Only then does the body execute.  The scheduler also owns
//! the discipline that the interpreter advances exactly once per tick;
//! the pipeline enforces that by phase (see the pipeline module).

use vstd::prelude::*;

verus! {

/// How many tick periods the watchdog tolerates without being fed
/// before it resets the system.
pub const WATCHDOG_PERIODS: u32 = 100;

/// The maintenance operations the interpreter can signal, at most one
/// per tick.
#[derive(Clone, Copy, PartialEq, Eq, Structural, Debug)]
pub enum CustomAction {
    /// Controlled halt: stop interrupt processing and spin until the
    /// watchdog forces a reset.
    Reset,
    /// Hand control to the platform's firmware-update entry point.
    Bootsel,
}

/// What the tick body tells its caller to do after the interpreter has
/// advanced.  Both non-continue outcomes are terminal for the run.
#[derive(Clone, Copy, PartialEq, Eq, Structural, Debug)]
pub enum TickDirective {
    /// Normal operation: emit the report and wait for the next tick.
    Continue,
    /// Disable interrupts and spin; the watchdog will reset the system.
    HaltForWatchdog,
    /// Enter firmware-update mode immediately.
    EnterUpdateMode,
}

/// The directive a tick ends with, given the interpreter's custom-action
/// signal for that tick.
pub open spec fn directive_of(signal: Option<CustomAction>) -> TickDirective {
    match signal {
        None => TickDirective::Continue,
        Some(CustomAction::Reset) => TickDirective::HaltForWatchdog,
        Some(CustomAction::Bootsel) => TickDirective::EnterUpdateMode,
    }
}

/// Decide what to do with the interpreter's custom-action signal.
pub fn directive(signal: Option<CustomAction>) -> (d: TickDirective)
    ensures
        d == directive_of(signal),
{
    match signal {
        None => TickDirective::Continue,
        Some(CustomAction::Reset) => TickDirective::HaltForWatchdog,
        Some(CustomAction::Bootsel) => TickDirective::EnterUpdateMode,
    }
}

/// Whether the scheduler is waiting for the timer or inside a tick body.
#[derive(Clone, Copy, PartialEq, Eq, Structural, Debug)]
pub enum SchedPhase {
    Armed,
    Running,
}

/// The scheduling state: the nominal deadline the timer is armed for and
/// the instant the watchdog will bite if it is not fed again, both in
/// timer ticks (microseconds on the target).
pub struct TickScheduler {
    pub period: u32,
    pub phase: SchedPhase,
    pub alarm_deadline: u64,
    pub watchdog_deadline: u64,
}

impl TickScheduler {
    /// The period is positive and the armed timer always fires well
    /// before the watchdog bites.
    pub open spec fn wf(self) -> bool {
        &&& self.period >= 1
        &&& self.alarm_deadline <= self.watchdog_deadline
    }

    /// Start the scheduler: the timer armed one period from now, the
    /// watchdog started with its full allowance.
    pub fn start(period: u32, now: u64) -> (s: TickScheduler)
        requires
            period >= 1,
            now + (period as u64) * (WATCHDOG_PERIODS as u64) <= u64::MAX,
        ensures
            s.wf(),
            s.period == period,
            s.phase == SchedPhase::Armed,
            s.alarm_deadline == now + period,
            s.watchdog_deadline == now + (period as u64) * (WATCHDOG_PERIODS as u64),
    {
        proof {
            assert((period as u64) <= (period as u64) * (WATCHDOG_PERIODS as u64))
                by (nonlinear_arith)
                requires
                    period >= 1,
                    WATCHDOG_PERIODS >= 1,
            ;
        }
        TickScheduler {
            period,
            phase: SchedPhase::Armed,
            alarm_deadline: now + period as u64,
            watchdog_deadline: now + (period as u64) * (WATCHDOG_PERIODS as u64),
        }
    }

    /// The state after the timer fires at instant `now`: timer re-armed
    /// one period ahead, watchdog fed, body about to run.
    pub open spec fn fired(self, now: u64) -> TickScheduler
        recommends
            now + (self.period as u64) * (WATCHDOG_PERIODS as u64) <= u64::MAX,
    {
        TickScheduler {
            period: self.period,
            phase: SchedPhase::Running,
            alarm_deadline: (now + self.period) as u64,
            watchdog_deadline: (now + (self.period as u64) * (WATCHDOG_PERIODS as u64)) as u64,
        }
    }

    /// The state after the tick body returns: back to waiting, with both
    /// deadlines exactly as fixed at fire time.
    pub open spec fn rested(self) -> TickScheduler {
        TickScheduler { phase: SchedPhase::Armed, ..self }
    }

    /// Timer interrupt entry at instant `now`: clear the timer, re-arm it
    /// for `now + period` and feed the watchdog, all before the tick body
    /// is allowed to run.  The new alarm deadline depends only on the
    /// fire instant, never on what the body will do.
    pub fn on_timer_fire(&mut self, now: u64)
        requires
            old(self).wf(),
            old(self).phase == SchedPhase::Armed,
            now >= old(self).alarm_deadline,
            now + (old(self).period as u64) * (WATCHDOG_PERIODS as u64) <= u64::MAX,
        ensures
            final(self).wf(),
            *final(self) == old(self).fired(now),
    {
        proof {
            assert((self.period as u64) <= (self.period as u64) * (WATCHDOG_PERIODS as u64))
                by (nonlinear_arith)
                requires
                    self.period >= 1,
                    WATCHDOG_PERIODS >= 1,
            ;
        }
        self.alarm_deadline = now + self.period as u64;
        self.watchdog_deadline = now + (self.period as u64) * (WATCHDOG_PERIODS as u64);
        self.phase = SchedPhase::Running;
    }

    /// The tick body has returned; wait for the already-armed timer.
    /// Neither deadline moves: they were fixed at fire time.
    pub fn body_done(&mut self)
        requires
            old(self).wf(),
            old(self).phase == SchedPhase::Running,
        ensures
            final(self).wf(),
            *final(self) == old(self).rested(),
    {
        self.phase = SchedPhase::Armed;
    }
}

/// Tick cadence: the timer is re-armed at interrupt entry, before the
/// tick body executes, so a tick that fires at `fire_time` leaves the
/// timer armed for exactly `fire_time + period` — whatever the body's
/// duration, which the scheduler state never even sees — and that
/// deadline stays ahead of the watchdog's.
pub proof fn lemma_tick_cadence(s: TickScheduler, fire_time: u64, body_duration: u64)
    requires
        s.wf(),
        s.phase == SchedPhase::Armed,
        fire_time >= s.alarm_deadline,
        fire_time + (s.period as u64) * (WATCHDOG_PERIODS as u64) <= u64::MAX,
    ensures
        s.fired(fire_time).rested().alarm_deadline == fire_time + s.period,
        s.fired(fire_time).rested().alarm_deadline <= s.fired(fire_time).rested().watchdog_deadline,
{
    assert((s.period as u64) <= (s.period as u64) * (WATCHDOG_PERIODS as u64))
        by (nonlinear_arith)
        requires
            s.period >= 1,
            WATCHDOG_PERIODS >= 1,
    ;
}

} // verus!
