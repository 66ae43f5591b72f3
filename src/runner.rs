//! Decisions of the polling loop. The caller runs the loop: it checks the
//! stop flag, samples, presents, evaluates, logs and sleeps as told, and
//! reports back what happened.
use crate::alerts::MonitorConfig;
use vstd::prelude::*;

verus! {

/// Lifecycle of one monitoring run.
#[derive(Clone, Copy, Debug, PartialEq, Eq, Structural)]
pub enum Phase {
    Idle,
    Running,
    Stopped,
}

/// Why a run ended.
#[derive(Clone, Copy, Debug, PartialEq, Eq, Structural)]
pub enum StopReason {
    /// A stop was requested.
    Requested,
    /// The configured duration has elapsed.
    DurationElapsed,
    /// The snapshot could not be appended to the log.
    LogFailed,
}

/// What to do at the top of a tick.
#[derive(Clone, Copy, Debug, PartialEq, Eq, Structural)]
pub enum TickStart {
    /// Leave the loop before doing any work.
    Exit,
    /// Sample and log; evaluate the alerts only when `evaluate_alerts` holds.
    Proceed { tick: u64, evaluate_alerts: bool },
}

/// What to do once the tick's snapshot is logged.
#[derive(Clone, Copy, Debug, PartialEq, Eq, Structural)]
pub enum TickEnd {
    /// Sleep this many seconds, then start the next tick.
    Sleep(u64),
    /// Leave the loop.
    Exit(StopReason),
}

/// State of the polling loop.
#[derive(Clone, Copy, Debug, PartialEq, Eq, Structural)]
pub struct MonitorLoop {
    pub phase: Phase,
    /// Ticks begun so far.
    pub ticks: u64,
    pub interval: u64,
    pub duration: u64,
    pub alerts: bool,
    pub stop_reason: Option<StopReason>,
}

/// Loop state and decision at the top of a tick, given whether a stop was
/// requested.
pub open spec fn begin_step(l: MonitorLoop, stop_requested: bool) -> (MonitorLoop, TickStart) {
    if l.phase != Phase::Running {
        (l, TickStart::Exit)
    } else if stop_requested {
        (MonitorLoop { phase: Phase::Stopped, stop_reason: Some(StopReason::Requested), ..l }, TickStart::Exit)
    } else {
        let t = if l.ticks == u64::MAX { l.ticks } else { (l.ticks + 1) as u64 };
        (MonitorLoop { ticks: t, ..l }, TickStart::Proceed { tick: t, evaluate_alerts: l.alerts })
    }
}

/// Loop state and decision after the tick's work, given whether the
/// snapshot was logged and the seconds elapsed since the run started.
pub open spec fn end_step(l: MonitorLoop, logged: bool, elapsed: u64) -> (MonitorLoop, TickEnd) {
    if l.phase != Phase::Running {
        (l, TickEnd::Exit(if l.stop_reason is Some { l.stop_reason.unwrap() } else { StopReason::Requested }))
    } else if !logged {
        (MonitorLoop { phase: Phase::Stopped, stop_reason: Some(StopReason::LogFailed), ..l }, TickEnd::Exit(StopReason::LogFailed))
    } else if l.duration > 0 && elapsed >= l.duration {
        (
            MonitorLoop { phase: Phase::Stopped, stop_reason: Some(StopReason::DurationElapsed), ..l },
            TickEnd::Exit(StopReason::DurationElapsed),
        )
    } else {
        (l, TickEnd::Sleep(l.interval))
    }
}

impl MonitorLoop {
    /// A loop that has not started, for the given configuration.
    pub fn new(config: &MonitorConfig) -> (r: MonitorLoop)
        ensures
            r.phase == Phase::Idle,
            r.ticks == 0,
            r.interval == config.interval,
            r.duration == config.duration,
            r.alerts == config.enable_alerts,
            r.stop_reason.is_none(),
    {
        MonitorLoop {
            phase: Phase::Idle,
            ticks: 0,
            interval: config.interval,
            duration: config.duration,
            alerts: config.enable_alerts,
            stop_reason: None,
        }
    }

    /// Enters `Running` from `Idle`; a loop that has run already is left as is.
    pub fn start(&mut self)
        ensures
            old(self).phase == Phase::Idle ==> *final(self) == (MonitorLoop { phase: Phase::Running, ..*old(self) }),
            old(self).phase != Phase::Idle ==> *final(self) == *old(self),
    {
        if self.phase == Phase::Idle {
            self.phase = Phase::Running;
        }
    }

    /// The check at the top of a tick: a requested stop ends the run before
    /// any work; otherwise the tick counter advances.
    pub fn begin_tick(&mut self, stop_requested: bool) -> (r: TickStart)
        ensures
            (*final(self), r) == begin_step(*old(self), stop_requested),
    {
        if self.phase != Phase::Running {
            return TickStart::Exit;
        }
        if stop_requested {
            self.phase = Phase::Stopped;
            self.stop_reason = Some(StopReason::Requested);
            return TickStart::Exit;
        }
        if self.ticks < u64::MAX {
            self.ticks = self.ticks + 1;
        }
        TickStart::Proceed { tick: self.ticks, evaluate_alerts: self.alerts }
    }

    /// The decision after the tick's snapshot was logged (or failed to be):
    /// a logging failure ends the run; so does reaching the duration, when
    /// one is set; otherwise sleep one interval.
    pub fn end_tick(&mut self, logged: bool, elapsed: u64) -> (r: TickEnd)
        ensures
            (*final(self), r) == end_step(*old(self), logged, elapsed),
    {
        if self.phase != Phase::Running {
            return TickEnd::Exit(
                match self.stop_reason {
                    Some(reason) => reason,
                    None => StopReason::Requested,
                },
            );
        }
        if !logged {
            self.phase = Phase::Stopped;
            self.stop_reason = Some(StopReason::LogFailed);
            return TickEnd::Exit(StopReason::LogFailed);
        }
        if self.duration > 0 && elapsed >= self.duration {
            self.phase = Phase::Stopped;
            self.stop_reason = Some(StopReason::DurationElapsed);
            return TickEnd::Exit(StopReason::DurationElapsed);
        }
        TickEnd::Sleep(self.interval)
    }
}

/// One report from the caller to the loop.
#[derive(Clone, Copy, Debug, PartialEq, Eq, Structural)]
pub enum LoopEvent {
    /// The check at the top of a tick, with whether a stop was requested.
    Begin(bool),
    /// The end of a tick, with whether the snapshot was logged and the
    /// seconds elapsed since the run started.
    End(bool, u64),
}

/// The loop state after one event.
pub open spec fn apply(l: MonitorLoop, ev: LoopEvent) -> MonitorLoop {
    match ev {
        LoopEvent::Begin(stop) => begin_step(l, stop).0,
        LoopEvent::End(logged, elapsed) => end_step(l, logged, elapsed).0,
    }
}

/// The loop state after a sequence of events, in order.
pub open spec fn run(l: MonitorLoop, evs: Seq<LoopEvent>) -> MonitorLoop
    decreases evs.len(),
{
    if evs.len() == 0 {
        l
    } else {
        apply(run(l, evs.drop_last()), evs.last())
    }
}

proof fn lemma_run_keeps_alerts(l: MonitorLoop, evs: Seq<LoopEvent>)
    ensures
        run(l, evs).alerts == l.alerts,
    decreases evs.len(),
{
    if evs.len() > 0 {
        lemma_run_keeps_alerts(l, evs.drop_last());
    }
}

/// With alerts disabled, no tick of a run, whatever the events reported,
/// asks for the alerts to be evaluated.
pub proof fn lemma_disabled_alerts_never_evaluated(l: MonitorLoop, evs: Seq<LoopEvent>, stop_requested: bool)
    requires
        !l.alerts,
    ensures
        !(begin_step(run(l, evs), stop_requested).1 matches TickStart::Proceed { evaluate_alerts: true, .. }),
{
    lemma_run_keeps_alerts(l, evs);
}

/// A stop requested while running is honoured at the next check, before
/// any further work; and between two checks the loop sleeps at most one
/// interval, so a stop is observed after at most one interval plus the
/// work of one tick.
pub proof fn lemma_stop_is_observed_at_next_check(l: MonitorLoop, logged: bool, elapsed: u64)
    requires
        l.phase == Phase::Running,
    ensures
        begin_step(l, true).1 == TickStart::Exit,
        begin_step(l, true).0.phase == Phase::Stopped,
        begin_step(begin_step(l, true).0, false).1 == TickStart::Exit,
        end_step(l, logged, elapsed).1 matches TickEnd::Sleep(s) ==> s == l.interval,
        end_step(l, logged, elapsed).0.interval == l.interval,
{
}

/// Number of ticks a run of `d` seconds at `i`-second intervals takes at
/// least: `ceil(d / i)`.
pub open spec fn min_ticks(d: nat, i: nat) -> nat
    recommends
        i > 0,
{
    ((d + i - 1) / (i as int)) as nat
}

/// With a duration set, a logged tick that ends once the duration has
/// elapsed ends the run by itself, with no stop request.
pub proof fn lemma_duration_ends_the_run(l: MonitorLoop, elapsed: u64)
    requires
        l.phase == Phase::Running,
        l.duration > 0,
        elapsed >= l.duration,
    ensures
        end_step(l, true, elapsed).1 == TickEnd::Exit(StopReason::DurationElapsed),
        end_step(l, true, elapsed).0.phase == Phase::Stopped,
{
}

/// The events of `m` ticks on an ideal clock: the `k`-th tick is begun
/// without a stop request, logged, and ends `(k - 1) · i` seconds after the start.
pub open spec fn ideal_events(m: nat, i: u64) -> Seq<LoopEvent>
    decreases m,
{
    if m == 0 {
        Seq::empty()
    } else {
        ideal_events((m - 1) as nat, i).push(LoopEvent::Begin(false)).push(
            LoopEvent::End(true, ((m - 1) * i) as u64),
        )
    }
}

/// With a duration `d > 0` and interval `i > 0`, on an ideal clock, a run
/// started afresh completes at least `ceil(d / i)` ticks and is still
/// running after them; it then ends by itself at the first tick that ends
/// once `d` seconds have passed.
pub proof fn lemma_run_lasts_min_ticks(l: MonitorLoop, m: nat)
    requires
        l.phase == Phase::Running,
        l.ticks == 0,
        l.duration > 0,
        l.interval > 0,
        m <= min_ticks(l.duration as nat, l.interval as nat),
    ensures
        run(l, ideal_events(m, l.interval)) == (MonitorLoop { ticks: m as u64, ..l }),
    decreases m,
{
    if m > 0 {
        let prev = ideal_events((m - 1) as nat, l.interval);
        lemma_run_lasts_min_ticks(l, (m - 1) as nat);
        let mid = prev.push(LoopEvent::Begin(false));
        let evs = mid.push(LoopEvent::End(true, ((m - 1) * l.interval) as u64));
        assert(evs.drop_last() =~= mid);
        assert(mid.drop_last() =~= prev);
        let d = l.duration as int;
        let i = l.interval as int;
        let mm = m as int;
        assert((mm - 1) * i < d && mm <= d) by (nonlinear_arith)
            requires
                d > 0,
                i > 0,
                1 <= mm <= (d + i - 1) / i,
        ;
        let s0 = run(l, prev);
        assert(s0 == (MonitorLoop { ticks: (m - 1) as u64, ..l }));
        let s1 = apply(s0, LoopEvent::Begin(false));
        assert(s1 == (MonitorLoop { ticks: m as u64, ..l }));
        assert(run(l, mid) == s1);
        assert(((m - 1) * l.interval) as u64 == (m - 1) * l.interval);
        assert(apply(s1, LoopEvent::End(true, ((m - 1) * l.interval) as u64)) == s1);
        assert(run(l, evs) == s1);
    }
}

} // verus!
