//! Tick positions of a ticker display, and the state machine of a timer:
//! start, stop, pause and resume, with the actions each asks of the thread
//! that runs the timer.
use vstd::prelude::*;
use std::time::Duration;

verus! {

/// What a timer offers: start, stop, pause and resume it, set how often it
/// ticks, and ask whether it runs or is paused.
pub trait AsyncTimer {
    fn start(&mut self) -> Result<(), String>;

    fn stop(&mut self) -> Result<(), String>;

    fn pause(&mut self) -> Result<(), String>;

    fn resume(&mut self) -> Result<(), String>;

    fn set_interval(&mut self, duration: Duration);

    fn is_running(&self) -> bool;

    fn is_paused(&self) -> bool;
}

/// What a ticker shows at a tick.
#[derive(Debug, Clone, Copy, PartialEq, Eq, Structural)]
pub enum FMTickPositions {
    TNone,
    TSection,
    TRest,
    TMedium,
    TMinor,
}

/// The numeric code of a tick position: its place in the declaration, from 0.
pub open spec fn spec_code(p: FMTickPositions) -> i32 {
    match p {
        FMTickPositions::TNone => 0,
        FMTickPositions::TSection => 1,
        FMTickPositions::TRest => 2,
        FMTickPositions::TMedium => 3,
        FMTickPositions::TMinor => 4,
    }
}

impl FMTickPositions {
    /// The numeric code of this tick position.
    pub fn code(self) -> (c: i32)
        ensures
            c == spec_code(self),
    {
        match self {
            FMTickPositions::TNone => 0,
            FMTickPositions::TSection => 1,
            FMTickPositions::TRest => 2,
            FMTickPositions::TMedium => 3,
            FMTickPositions::TMinor => 4,
        }
    }
}

/// A medium tick shown as a minor one where sub-beats are ignored.
pub open spec fn spec_fix_subbeat(tick_value: i32, ignore_subbeats: Option<bool>) -> i32 {
    if tick_value == spec_code(FMTickPositions::TMedium) && ignore_subbeats == Some(true) {
        spec_code(FMTickPositions::TMinor)
    } else {
        tick_value
    }
}

/// Shows a medium tick as a minor one where sub-beats are to be ignored
/// (`ignore_subbeats` defaults to false).
pub fn fix_subbeat(tick_value: i32, ignore_subbeats: Option<bool>) -> (r: i32)
    ensures
        r == spec_fix_subbeat(tick_value, ignore_subbeats),
{
    let ignore = match ignore_subbeats {
        Some(b) => b,
        None => false,
    };
    if tick_value == FMTickPositions::TMedium.code() && ignore {
        FMTickPositions::TMinor.code()
    } else {
        tick_value
    }
}

/// The state of a circle ticker after a tick: a section or rest position
/// stays, anything else becomes no position.
pub open spec fn spec_circle_state_after_tick(state: FMTickPositions) -> FMTickPositions {
    let adjusted = spec_fix_subbeat(spec_code(state), None);
    if adjusted == spec_code(FMTickPositions::TSection) {
        FMTickPositions::TSection
    } else if adjusted == spec_code(FMTickPositions::TRest) {
        FMTickPositions::TRest
    } else {
        FMTickPositions::TNone
    }
}

/// The state of a circle ticker after a tick (see [`spec_circle_state_after_tick`]).
pub fn circle_state_after_tick(state: FMTickPositions) -> (r: FMTickPositions)
    ensures
        r == spec_circle_state_after_tick(state),
{
    let adjusted_tick = fix_subbeat(state.code(), None);
    if adjusted_tick == FMTickPositions::TSection.code() {
        FMTickPositions::TSection
    } else if adjusted_tick == FMTickPositions::TRest.code() {
        FMTickPositions::TRest
    } else {
        FMTickPositions::TNone
    }
}

/// What the thread that runs a timer is asked to do.
#[derive(Debug, Clone, Copy, PartialEq, Eq, Structural)]
pub enum TimerAction {
    /// Nothing to do.
    Idle,
    /// Start the timer thread.
    Spawn,
    /// Tell the thread to stop, and wait for it.
    SignalStop,
    /// Tell the thread to pause.
    SignalPause,
    /// Tell the thread to resume.
    SignalResume,
}

/// Whether a timer runs, and whether it is paused.
#[derive(Debug, Clone, Copy, PartialEq, Eq, Structural)]
pub struct TimerState {
    pub is_running: bool,
    pub is_paused: bool,
}

/// A paused timer is running.
pub open spec fn consistent(s: TimerState) -> bool {
    s.is_paused ==> s.is_running
}

/// State and action after a start request: a running timer is left alone.
pub open spec fn after_start(s: TimerState) -> (TimerState, TimerAction) {
    if s.is_running {
        (s, TimerAction::Idle)
    } else {
        (TimerState { is_running: true, ..s }, TimerAction::Spawn)
    }
}

/// State and outcome after a stop request, given whether the thread ended
/// cleanly: a timer not running is left alone; a thread that panicked is
/// reported and the state kept.
pub open spec fn after_stop(s: TimerState, ended_cleanly: bool) -> (TimerState, Result<(), Seq<char>>) {
    if !s.is_running {
        (s, Ok(()))
    } else if !ended_cleanly {
        (s, Err("Thread panic"@))
    } else {
        (TimerState { is_running: false, is_paused: false }, Ok(()))
    }
}

/// State and outcome after a pause request.
pub open spec fn after_pause(s: TimerState) -> (TimerState, Result<TimerAction, Seq<char>>) {
    if !s.is_running {
        (s, Err("Timer is not running"@))
    } else if s.is_paused {
        (s, Ok(TimerAction::Idle))
    } else {
        (TimerState { is_paused: true, ..s }, Ok(TimerAction::SignalPause))
    }
}

/// State and outcome after a resume request.
pub open spec fn after_resume(s: TimerState) -> (TimerState, Result<TimerAction, Seq<char>>) {
    if !s.is_running {
        (s, Err("Timer is not running"@))
    } else if !s.is_paused {
        (s, Ok(TimerAction::Idle))
    } else {
        (TimerState { is_paused: false, ..s }, Ok(TimerAction::SignalResume))
    }
}

/// The view of an action or an error message.
pub open spec fn action_view(r: Result<TimerAction, String>) -> Result<TimerAction, Seq<char>> {
    match r {
        Ok(a) => Ok(a),
        Err(m) => Err(m@),
    }
}

impl TimerState {
    /// A timer that is neither running nor paused.
    pub fn new() -> (s: TimerState)
        ensures
            s == (TimerState { is_running: false, is_paused: false }),
    {
        TimerState { is_running: false, is_paused: false }
    }

    /// A start request: spawn the thread unless the timer already runs.
    pub fn start(&mut self) -> (a: TimerAction)
        ensures
            (*final(self), a) == after_start(*old(self)),
    {
        if self.is_running {
            return TimerAction::Idle;
        }
        self.is_running = true;
        TimerAction::Spawn
    }

    /// A stop request: whether the thread must be told to stop.
    pub fn stop(&self) -> (a: TimerAction)
        ensures
            a == (if self.is_running {
                TimerAction::SignalStop
            } else {
                TimerAction::Idle
            }),
    {
        if self.is_running {
            TimerAction::SignalStop
        } else {
            TimerAction::Idle
        }
    }

    /// Completes a stop request once the thread is gone or has panicked.
    pub fn finish_stop(&mut self, ended_cleanly: bool) -> (r: Result<(), String>)
        ensures
            *final(self) == after_stop(*old(self), ended_cleanly).0,
            match (r, after_stop(*old(self), ended_cleanly).1) {
                (Ok(()), Ok(())) => true,
                (Err(m), Err(msg)) => m@ == msg,
                _ => false,
            },
    {
        if !self.is_running {
            return Ok(());
        }
        if !ended_cleanly {
            return Err("Thread panic".to_owned());
        }
        self.is_running = false;
        self.is_paused = false;
        Ok(())
    }

    /// A pause request: an error where the timer is not running.
    pub fn pause(&mut self) -> (r: Result<TimerAction, String>)
        ensures
            (*final(self), action_view(r)) == after_pause(*old(self)),
    {
        if !self.is_running {
            return Err("Timer is not running".to_owned());
        }
        if self.is_paused {
            return Ok(TimerAction::Idle);
        }
        self.is_paused = true;
        Ok(TimerAction::SignalPause)
    }

    /// A resume request: an error where the timer is not running.
    pub fn resume(&mut self) -> (r: Result<TimerAction, String>)
        ensures
            (*final(self), action_view(r)) == after_resume(*old(self)),
    {
        if !self.is_running {
            return Err("Timer is not running".to_owned());
        }
        if !self.is_paused {
            return Ok(TimerAction::Idle);
        }
        self.is_paused = false;
        Ok(TimerAction::SignalResume)
    }
}

/// Every request keeps a timer consistent: it is paused only while it runs.
pub proof fn lemma_requests_keep_consistent(s: TimerState, ended_cleanly: bool)
    requires
        consistent(s),
    ensures
        consistent(after_start(s).0),
        consistent(after_stop(s, ended_cleanly).0),
        consistent(after_pause(s).0),
        consistent(after_resume(s).0),
{
}

/// Pausing a running timer and resuming it gives back the state it had.
pub proof fn lemma_pause_then_resume(s: TimerState)
    requires
        s.is_running,
        !s.is_paused,
    ensures
        after_resume(after_pause(s).0).0 == s,
        after_pause(s).1 == Ok::<TimerAction, Seq<char>>(TimerAction::SignalPause),
        after_resume(after_pause(s).0).1 == Ok::<TimerAction, Seq<char>>(TimerAction::SignalResume),
{
}

/// A clean stop leaves a consistent timer neither running nor paused, so a
/// start spawns a fresh thread.
pub proof fn lemma_stop_then_start(s: TimerState)
    requires
        consistent(s),
    ensures
        after_stop(s, true).0 == (TimerState { is_running: false, is_paused: false }),
        after_start(after_stop(s, true).0).1 == TimerAction::Spawn,
{
}

} // verus!
