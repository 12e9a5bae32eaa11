//! The beat events handed to the Flutter front end, the bounded queue that
//! holds them until the front end polls, and the decisions of the interface
//! functions around the running timer.
use vstd::prelude::*;
use crate::meter::BeatType;
use std::collections::VecDeque;

verus! {

/// How many events the queue keeps: the most recent ones.
pub const EVENT_QUEUE_CAPACITY: usize = 100;

/// One beat, as the front end sees it.
#[derive(Debug, Clone, PartialEq)]
pub struct FlutterBeatEvent {
    /// Numerator of the current bar (0 for a time-based bar).
    pub current_bar_nom: i32,
    pub current_bar_denom: i32,
    /// `"Major"`, `"Medium"` or `"Minor"`.
    pub beat_type: String,
    /// 1-based position of the subbeat within the bar.
    pub subbeat_position: i32,
    /// Signature of the next bar, where there is one.
    pub next_bar_nom: Option<i32>,
    pub next_bar_denom: Option<i32>,
    /// Time within the current bar.
    pub current_time_ms: i64,
    /// Length of the current bar.
    pub bar_duration_ms: Option<i64>,
}

/// The last `EVENT_QUEUE_CAPACITY` events of `s`, oldest first.
pub open spec fn keep_last(s: Seq<FlutterBeatEvent>) -> Seq<FlutterBeatEvent> {
    if s.len() > EVENT_QUEUE_CAPACITY {
        s.subrange(s.len() - EVENT_QUEUE_CAPACITY, s.len() as int)
    } else {
        s
    }
}

/// Events waiting for the front end, oldest first, never more than
/// `EVENT_QUEUE_CAPACITY` of them.
#[derive(Debug)]
pub struct BeatEventQueue {
    events: VecDeque<FlutterBeatEvent>,
}

impl View for BeatEventQueue {
    type V = Seq<FlutterBeatEvent>;

    closed spec fn view(&self) -> Seq<FlutterBeatEvent> {
        self.events@
    }
}

impl BeatEventQueue {
    #[verifier::type_invariant]
    closed spec fn bounded(self) -> bool {
        self.events@.len() <= EVENT_QUEUE_CAPACITY
    }

    /// An empty queue.
    pub fn new() -> (q: BeatEventQueue)
        ensures
            q@ == Seq::<FlutterBeatEvent>::empty(),
    {
        BeatEventQueue { events: VecDeque::new() }
    }

    /// The number of waiting events.
    pub fn len(&self) -> (n: usize)
        ensures
            n == self@.len(),
            n <= EVENT_QUEUE_CAPACITY,
    {
        proof {
            use_type_invariant(self);
        }
        self.events.len()
    }

    /// Appends `event`; where that makes more than `EVENT_QUEUE_CAPACITY`,
    /// the oldest events are dropped.
    pub fn push(&mut self, event: FlutterBeatEvent)
        ensures
            final(self)@ == keep_last(old(self)@.push(event)),
    {
        proof {
            use_type_invariant(&*self);
        }
        let ghost pushed = self.events@.push(event);
        let mut events = VecDeque::new();
        std::mem::swap(&mut events, &mut self.events);
        events.push_back(event);
        while events.len() > EVENT_QUEUE_CAPACITY
            invariant
                pushed.len() <= EVENT_QUEUE_CAPACITY + 1,
                events@.len() <= pushed.len(),
                events@.len() >= EVENT_QUEUE_CAPACITY || events@ == pushed,
                events@ == pushed.subrange(pushed.len() - events@.len(), pushed.len() as int),
            decreases events@.len(),
        {
            events.pop_front();
        }
        assert(events@ == keep_last(pushed));
        self.events = events;
    }

    /// Drops every waiting event.
    pub fn clear(&mut self)
        ensures
            final(self)@ == Seq::<FlutterBeatEvent>::empty(),
    {
        let mut events = VecDeque::new();
        std::mem::swap(&mut events, &mut self.events);
        events.clear();
        self.events = events;
    }

    /// Hands out every waiting event, oldest first, and leaves the queue empty.
    pub fn drain(&mut self) -> (r: Vec<FlutterBeatEvent>)
        ensures
            r@ == old(self)@,
            final(self)@ == Seq::<FlutterBeatEvent>::empty(),
    {
        let ghost all = self.events@;
        let mut events = VecDeque::new();
        std::mem::swap(&mut events, &mut self.events);
        let mut out: Vec<FlutterBeatEvent> = Vec::new();
        while events.len() > 0
            invariant
                out@ + events@ == all,
            decreases events@.len(),
        {
            match events.pop_front() {
                Some(e) => {
                    out.push(e);
                    assert(out@ + events@ =~= all);
                },
                None => {},
            }
        }
        assert(out@ =~= all);
        out
    }
}

/// The events the front end has not seen yet, oldest first; the queue is
/// left empty.
pub fn get_beat_events(queue: &mut BeatEventQueue) -> (r: Vec<FlutterBeatEvent>)
    ensures
        r@ == old(queue)@,
        final(queue)@ == Seq::<FlutterBeatEvent>::empty(),
{
    queue.drain()
}

/// `prefix` followed by `e`, as `Err`.
pub open spec fn prefixed_error(prefix: Seq<char>, e: Seq<char>) -> Seq<char> {
    prefix + e
}

fn prefixed(prefix: &str, e: &String) -> (s: String)
    ensures
        s@ == prefixed_error(prefix@, e@),
{
    let mut s = String::from_str(prefix);
    s.append(e.as_str());
    s
}

/// What stopping the timer answers, where `stop_result` is the outcome of
/// stopping the stored timer, `None` where none was stored.
pub open spec fn stop_answer(stop_result: Option<Result<(), String>>) -> Result<(), Seq<char>> {
    match stop_result {
        Some(Err(e)) => Err(prefixed_error("Failed to stop timer: "@, e@)),
        _ => Ok(()),
    }
}

/// Finishes a stop request on the stored timer (`timer_slot`), once the
/// timer in it, if any, has been asked to stop with outcome `stop_result`.
/// Where that went well, or no timer was stored, the slot is emptied, the
/// queue is cleared and the answer is `Ok`; else the error is reported and
/// both are left as they were.
pub fn stop_musical_timer<T>(
    timer_slot: &mut Option<T>,
    stop_result: Option<Result<(), String>>,
    queue: &mut BeatEventQueue,
) -> (r: Result<(), String>)
    requires
        stop_result is Some <==> (*old(timer_slot)) is Some,
    ensures
        match r {
            Ok(()) => stop_answer(stop_result) is Ok && *final(timer_slot) is None && final(queue)@
                == Seq::<FlutterBeatEvent>::empty(),
            Err(e) => stop_answer(stop_result) == Err::<(), Seq<char>>(e@) && *final(timer_slot)
                == *old(timer_slot) && final(queue)@ == old(queue)@,
        },
{
    match stop_result {
        Some(Err(e)) => {
            let msg = prefixed("Failed to stop timer: ", &e);
            return Err(msg);
        },
        _ => {},
    }
    *timer_slot = None;
    queue.clear();
    Ok(())
}

/// Stopping when no timer is stored succeeds and clears the queue; since a
/// stop that succeeds empties the slot, stopping twice succeeds twice.
pub proof fn lemma_stop_again_succeeds()
    ensures
        stop_answer(None) == Ok::<(), Seq<char>>(()),
{
}

/// Whether a timer is stored and running; `running` is the running flag of
/// the stored timer, `None` where none is stored.
pub fn is_timer_running(running: Option<bool>) -> (b: bool)
    ensures
        b == (running == Some(true)),
{
    match running {
        Some(r) => r,
        None => false,
    }
}

/// Nothing needs setting up before a timer is started.
pub fn init_flutter_timer() -> (r: Result<(), String>)
    ensures
        r is Ok,
{
    Ok(())
}

/// The report of a stop request: `"Timer stopped successfully"`, or
/// `"Failed to stop timer: "` followed by the error.
pub open spec fn stop_report(r: Result<(), Seq<char>>) -> Seq<char> {
    match r {
        Ok(()) => "Timer stopped successfully"@,
        Err(e) => "Failed to stop timer: "@ + e,
    }
}

/// The report of a stop request with outcome `stopped`.
pub fn stop_flutter_musical_timer(stopped: Result<(), String>) -> (s: String)
    ensures
        s@ == stop_report(
            match stopped {
                Ok(()) => Ok(()),
                Err(e) => Err(e@),
            },
        ),
{
    match stopped {
        Ok(()) => String::from_str("Timer stopped successfully"),
        Err(e) => prefixed("Failed to stop timer: ", &e),
    }
}

/// The report of a start request: `"Timer started successfully"`, or
/// `"Failed to start timer: "` followed by the error.
pub fn start_report(started: Result<(), String>) -> (s: String)
    ensures
        s@ == match started {
            Ok(()) => "Timer started successfully"@,
            Err(e) => "Failed to start timer: "@ + e@,
        },
{
    match started {
        Ok(()) => String::from_str("Timer started successfully"),
        Err(e) => prefixed("Failed to start timer: ", &e),
    }
}

/// The name the front end gets for a beat class.
pub open spec fn beat_type_text(t: BeatType) -> Seq<char> {
    match t {
        BeatType::Major => "Major"@,
        BeatType::Medium => "Medium"@,
        BeatType::Minor => "Minor"@,
    }
}

/// The name of a beat class.
pub fn beat_type_name(t: BeatType) -> (s: String)
    ensures
        s@ == beat_type_text(t),
{
    match t {
        BeatType::Major => String::from_str("Major"),
        BeatType::Medium => String::from_str("Medium"),
        BeatType::Minor => String::from_str("Minor"),
    }
}

/// The 1-based position within its bar of the beat whose 0-based index
/// within the bar is `subbeat_in_beat`: 1 to 6 over a 6/8 bar.
pub open spec fn subbeat_position_value(subbeat_in_beat: usize) -> int {
    subbeat_in_beat + 1
}

/// The subbeat position of a beat event.
pub fn subbeat_position(subbeat_in_beat: usize) -> (p: i32)
    requires
        subbeat_in_beat < i32::MAX,
    ensures
        p == subbeat_position_value(subbeat_in_beat),
{
    (subbeat_in_beat + 1) as i32
}

/// `a / b` rounded toward zero, as Rust's integer division gives it.
pub open spec fn trunc_div(a: int, b: int) -> int {
    let q = (if a < 0 { -a } else { a }) / (if b < 0 { -b } else { b });
    if (a < 0) != (b < 0) {
        -q
    } else {
        q
    }
}

/// The time from the start of a bar of `bar_duration_ms` to its beat with
/// 0-based index `subbeat_in_beat`, where the bar's `nom` beats are spread
/// evenly: the index times the bar's length divided by `nom`.
pub open spec fn time_in_bar_value(bar_duration_ms: i64, nom: i32, subbeat_in_beat: usize) -> int {
    subbeat_in_beat * trunc_div(bar_duration_ms as int, nom as int)
}

/// The time within its bar of a beat event (see [`time_in_bar_value`]).
pub fn time_in_bar_ms(bar_duration_ms: i64, nom: i32, subbeat_in_beat: usize) -> (t: i64)
    requires
        nom != 0,
        i64::MIN <= time_in_bar_value(bar_duration_ms, nom, subbeat_in_beat) <= i64::MAX,
    ensures
        t == time_in_bar_value(bar_duration_ms, nom, subbeat_in_beat),
{
    let mag_d: u64 = if bar_duration_ms < 0 {
        (0i128 - bar_duration_ms as i128) as u64
    } else {
        bar_duration_ms as u64
    };
    let mag_n: u64 = if nom < 0 {
        (0i64 - nom as i64) as u64
    } else {
        nom as u64
    };
    let q: u64 = mag_d / mag_n;
    let signed_q: i128 = if (bar_duration_ms < 0) != (nom < 0) {
        0i128 - q as i128
    } else {
        q as i128
    };
    assert(signed_q == trunc_div(bar_duration_ms as int, nom as int));
    let index: i128 = subbeat_in_beat as i128;
    assert(-0x8000_0000_0000_0000 <= signed_q <= 0x8000_0000_0000_0000);
    assert(0 <= index <= 0xFFFF_FFFF_FFFF_FFFF);
    assert(-0x8000_0000_0000_0000 * 0xFFFF_FFFF_FFFF_FFFF <= index * signed_q
        <= 0x8000_0000_0000_0000 * 0xFFFF_FFFF_FFFF_FFFF) by (nonlinear_arith)
        requires
            -0x8000_0000_0000_0000 <= signed_q <= 0x8000_0000_0000_0000,
            0 <= index <= 0xFFFF_FFFF_FFFF_FFFF,
    ;
    let product: i128 = index * signed_q;
    product as i64
}

/// The signature of the bar after bar `bar_index` among `metrics`, as
/// `(numerator, denominator)` options: both `None` after the last bar.
pub fn next_bar_metric(metrics: &Vec<(i32, i32)>, bar_index: usize) -> (r: (Option<i32>, Option<i32>))
    ensures
        r == if bar_index + 1 < metrics@.len() {
            (Some(metrics@[bar_index + 1].0), Some(metrics@[bar_index + 1].1))
        } else {
            (None, None)
        },
{
    if bar_index < metrics.len() && bar_index + 1 < metrics.len() {
        let next = metrics[bar_index + 1];
        (Some(next.0), Some(next.1))
    } else {
        (None, None)
    }
}

/// Which of `bar_count` bars a beat of bar `bar_index` is measured against:
/// that bar where it exists, else the last one, `None` where there is none.
pub fn current_bar_slot(bar_index: usize, bar_count: usize) -> (r: Option<usize>)
    ensures
        r == if bar_index < bar_count {
            Some(bar_index)
        } else if bar_count > 0 {
            Some((bar_count - 1) as usize)
        } else {
            None::<usize>
        },
{
    if bar_index < bar_count {
        Some(bar_index)
    } else if bar_count > 0 {
        Some(bar_count - 1)
    } else {
        None
    }
}

} // verus!
