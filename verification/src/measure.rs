//! The counters of a measure timer: which section, measure and beat it has
//! reached, and what each scheduling step asks of the thread that waits for
//! the next beat.
use vstd::prelude::*;

verus! {

/// What one scheduling step asks for.
#[derive(Debug, Clone, Copy, PartialEq, Eq, Structural)]
pub enum ScheduleStep {
    /// Every section is done: the timer is cancelled.
    Cancelled,
    /// The section's measures are done: go on with the next section.
    NextSection,
    /// Wait for the beat with this index, then run.
    Wait(usize),
}

/// Counters of a measure timer.
#[derive(Debug, Clone, Copy, PartialEq, Eq, Structural)]
pub struct MeasureCounter {
    pub stop: bool,
    pub cnt_section: usize,
    pub cnt_measure: usize,
    pub cnt_beat: usize,
    pub beat_idx: usize,
}

/// The counters and the request after one scheduling step, for
/// `section_count` sections of `num_measures` measures of
/// `beats_per_measure` beats.
pub open spec fn schedule_step(
    c: MeasureCounter,
    section_count: usize,
    num_measures: usize,
    beats_per_measure: usize,
) -> (MeasureCounter, ScheduleStep) {
    if c.cnt_section >= section_count {
        (MeasureCounter { stop: true, ..c }, ScheduleStep::Cancelled)
    } else if c.cnt_measure >= num_measures {
        (
            MeasureCounter { cnt_section: (c.cnt_section + 1) as usize, cnt_measure: 0, ..c },
            ScheduleStep::NextSection,
        )
    } else {
        let beat = (c.cnt_beat + 1) as usize;
        let next = MeasureCounter { cnt_beat: beat, beat_idx: (c.beat_idx + 1) as usize, ..c };
        if beat >= beats_per_measure {
            (
                MeasureCounter { cnt_beat: 0, cnt_measure: (c.cnt_measure + 1) as usize, ..next },
                ScheduleStep::Wait(c.beat_idx),
            )
        } else {
            (next, ScheduleStep::Wait(c.beat_idx))
        }
    }
}

impl MeasureCounter {
    /// All counters at zero, not stopped.
    pub fn new() -> (c: MeasureCounter)
        ensures
            c == (MeasureCounter {
                stop: false,
                cnt_section: 0,
                cnt_measure: 0,
                cnt_beat: 0,
                beat_idx: 0,
            }),
    {
        MeasureCounter { stop: false, cnt_section: 0, cnt_measure: 0, cnt_beat: 0, beat_idx: 0 }
    }

    /// Stops the timer.
    pub fn cancel(&mut self)
        ensures
            *final(self) == (MeasureCounter { stop: true, ..*old(self) }),
    {
        self.stop = true;
    }

    /// One scheduling step (see [`schedule_step`]).
    pub fn schedule(&mut self, section_count: usize, num_measures: usize, beats_per_measure: usize) -> (s:
        ScheduleStep)
        requires
            old(self).cnt_beat < usize::MAX,
            old(self).beat_idx < usize::MAX,
        ensures
            (*final(self), s) == schedule_step(*old(self), section_count, num_measures, beats_per_measure),
    {
        if self.cnt_section >= section_count {
            self.cancel();
            return ScheduleStep::Cancelled;
        }
        if self.cnt_measure >= num_measures {
            self.cnt_section = self.cnt_section + 1;
            self.cnt_measure = 0;
            return ScheduleStep::NextSection;
        }
        let beat = self.beat_idx;
        self.cnt_beat = self.cnt_beat + 1;
        self.beat_idx = self.beat_idx + 1;
        if self.cnt_beat >= beats_per_measure {
            self.cnt_beat = 0;
            self.cnt_measure = self.cnt_measure + 1;
        }
        ScheduleStep::Wait(beat)
    }
}

/// Beats are waited for in order, one index after the other, and the beat
/// counter stays below the beats of a measure (where a measure has beats).
pub proof fn lemma_schedule_counts(
    c: MeasureCounter,
    section_count: usize,
    num_measures: usize,
    beats_per_measure: usize,
)
    requires
        c.cnt_beat < beats_per_measure,
        c.beat_idx < usize::MAX,
    ensures
        ({
            let (n, s) = schedule_step(c, section_count, num_measures, beats_per_measure);
            &&& n.cnt_beat < beats_per_measure
            &&& match s {
                ScheduleStep::Wait(i) => i == c.beat_idx && n.beat_idx == c.beat_idx + 1,
                _ => n.beat_idx == c.beat_idx,
            }
        }),
{
}

} // verus!
