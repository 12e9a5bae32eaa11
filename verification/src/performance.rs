//! The performance sequence of a movement: every bar in the order it is
//! played, with repetitions expanded and individual endings inserted.
use vstd::prelude::*;
use crate::composition::{Bar, BarView, Composition, CompositionView, Movement, MovementView, SectionView};
use crate::text::{decimal, decimal_string};

verus! {

/// One bar of a performance, with where it comes from in the movement.
pub struct PerformedBar {
    /// The bar as played; inside a repetition pass its number is its
    /// 1-based position within the pass.
    pub bar: BarView,
    /// The section the bar belongs to (for an ending: the hosting section).
    pub section_index: usize,
    pub section_name: Seq<char>,
    pub is_repetition: bool,
    /// The index of the repetition within its hosting section.
    pub repetition_index: Option<usize>,
    pub is_individual_ending: bool,
    /// The bar's index within its section's bars, or within the ending pattern.
    pub bar_index_in_section: usize,
    /// The section that hosts the repetition that plays this bar.
    pub host_section: Option<usize>,
}

/// The name of the sections' bars played as an individual ending:
/// `"<name> (Ending <repetition_index + 1>)"`.
pub open spec fn ending_label(name: Seq<char>, repetition_index: int) -> Seq<char> {
    name + " (Ending "@ + decimal((repetition_index + 1) as nat) + ")"@
}

/// The bars of section `s`, played in order.
pub open spec fn base_block(m: MovementView, s: int) -> Seq<PerformedBar> {
    let sec = m.sections[s];
    Seq::new(
        sec.bars.len(),
        |i: int|
            PerformedBar {
                bar: sec.bars[i],
                section_index: s as usize,
                section_name: sec.name,
                is_repetition: false,
                repetition_index: None,
                is_individual_ending: false,
                bar_index_in_section: i as usize,
                host_section: None,
            },
    )
}

/// The bars of `x` with their numbers replaced by `offset + 1`, `offset + 2`, ...
pub open spec fn renumbered_from(x: Seq<PerformedBar>, offset: int) -> Seq<PerformedBar> {
    Seq::new(
        x.len(),
        |i: int| PerformedBar { bar: BarView { number: (offset + i + 1) as usize, ..x[i].bar }, ..x[i] },
    )
}

/// The bars of section `q` replayed by repetition `r` of section `s`.
pub open spec fn replayed_section(m: MovementView, s: int, r: int, q: int) -> Seq<PerformedBar> {
    let sec = m.sections[q];
    Seq::new(
        sec.bars.len(),
        |i: int|
            PerformedBar {
                bar: sec.bars[i],
                section_index: q as usize,
                section_name: sec.name,
                is_repetition: true,
                repetition_index: Some(r as usize),
                is_individual_ending: false,
                bar_index_in_section: i as usize,
                host_section: Some(s as usize),
            },
    )
}

/// The first section index of repetition `r` of section `s`.
pub open spec fn rep_start(m: MovementView, s: int, r: int) -> int {
    m.sections[s].repetitions[r].start_section as int
}

/// One past the last section that repetition `r` of section `s` replays:
/// the range `start..=end` cut at the number of sections.
pub open spec fn pass_end(m: MovementView, s: int, r: int) -> int {
    let rep = m.sections[s].repetitions[r];
    let len = m.sections.len() as int;
    if rep.start_section <= rep.end_section && rep.start_section < len {
        if rep.end_section + 1 < len {
            rep.end_section + 1
        } else {
            len
        }
    } else {
        rep.start_section as int
    }
}

/// The replayed sections `start..q` of one pass, numbered from 1.
pub open spec fn replay_upto(m: MovementView, s: int, r: int, q: int) -> Seq<PerformedBar>
    decreases q - rep_start(m, s, r),
{
    if q <= rep_start(m, s, r) {
        seq![]
    } else {
        let before = replay_upto(m, s, r, q - 1);
        before + renumbered_from(replayed_section(m, s, r, q - 1), before.len() as int)
    }
}

/// The individual ending of repetition `r` of section `s`, if it has one.
pub open spec fn ending_block(m: MovementView, s: int, r: int) -> Seq<PerformedBar> {
    let sec = m.sections[s];
    match sec.repetitions[r].individual_ending_pattern {
        Some(p) => Seq::new(
            p.len(),
            |i: int|
                PerformedBar {
                    bar: p[i],
                    section_index: s as usize,
                    section_name: ending_label(sec.name, r),
                    is_repetition: true,
                    repetition_index: Some(r as usize),
                    is_individual_ending: true,
                    bar_index_in_section: i as usize,
                    host_section: Some(s as usize),
                },
        ),
        None => seq![],
    }
}

/// One pass of repetition `r` of section `s`: the replayed sections, then
/// the ending, numbered from 1.
pub open spec fn one_pass(m: MovementView, s: int, r: int) -> Seq<PerformedBar> {
    let replay = replay_upto(m, s, r, pass_end(m, s, r));
    replay + renumbered_from(ending_block(m, s, r), replay.len() as int)
}

/// `k` passes of repetition `r` of section `s`.
pub open spec fn passes(m: MovementView, s: int, r: int, k: int) -> Seq<PerformedBar>
    decreases k,
{
    if k <= 0 {
        seq![]
    } else {
        passes(m, s, r, k - 1) + one_pass(m, s, r)
    }
}

/// All passes of the repetitions `0..rr` of section `s`.
pub open spec fn repetitions_upto(m: MovementView, s: int, rr: int) -> Seq<PerformedBar>
    decreases rr,
{
    if rr <= 0 {
        seq![]
    } else {
        repetitions_upto(m, s, rr - 1) + passes(
            m,
            s,
            rr - 1,
            m.sections[s].repetitions[rr - 1].num_repetitions as int,
        )
    }
}

/// Section `s` as played: its bars, then the repetitions it hosts.
pub open spec fn section_block(m: MovementView, s: int) -> Seq<PerformedBar> {
    base_block(m, s) + repetitions_upto(m, s, m.sections[s].repetitions.len() as int)
}

/// The sections `0..ss` as played.
pub open spec fn sections_upto(m: MovementView, ss: int) -> Seq<PerformedBar>
    decreases ss,
{
    if ss <= 0 {
        seq![]
    } else {
        sections_upto(m, ss - 1) + section_block(m, ss - 1)
    }
}

/// The complete performance sequence of a movement.
pub open spec fn performance(m: MovementView) -> Seq<PerformedBar> {
    sections_upto(m, m.sections.len() as int)
}

/// More passes of a repetition play at least as many bars.
pub(crate) proof fn lemma_passes_grow(m: MovementView, s: int, r: int, a: int, b: int)
    requires
        a <= b,
    ensures
        passes(m, s, r, a).len() <= passes(m, s, r, b).len(),
    decreases b - a,
{
    if a < b {
        lemma_passes_grow(m, s, r, a, b - 1);
    }
}

/// More repetitions of a section play at least as many bars.
pub(crate) proof fn lemma_repetitions_grow(m: MovementView, s: int, a: int, b: int)
    requires
        a <= b,
    ensures
        repetitions_upto(m, s, a).len() <= repetitions_upto(m, s, b).len(),
    decreases b - a,
{
    if a < b {
        lemma_repetitions_grow(m, s, a, b - 1);
    }
}

/// More sections of a movement play at least as many bars.
pub(crate) proof fn lemma_sections_grow(m: MovementView, a: int, b: int)
    requires
        a <= b,
    ensures
        sections_upto(m, a).len() <= sections_upto(m, b).len(),
    decreases b - a,
{
    if a < b {
        lemma_sections_grow(m, a, b - 1);
    }
}

/// Replaying more sections plays at least as many bars.
pub(crate) proof fn lemma_replay_grow(m: MovementView, s: int, r: int, a: int, b: int)
    requires
        a <= b,
    ensures
        replay_upto(m, s, r, a).len() <= replay_upto(m, s, r, b).len(),
    decreases b - a,
{
    if a < b {
        lemma_replay_grow(m, s, r, a, b - 1);
    }
}

/// One bar of the performance sequence of a movement.
#[derive(Debug)]
pub struct ExpandedBar {
    pub original_bar: Bar,
    /// 1-based position in the performance sequence.
    pub logical_bar_number: usize,
    pub section_index: usize,
    pub section_name: String,
    pub is_repetition: bool,
    pub repetition_index: Option<usize>,
    pub is_individual_ending: bool,
}

impl ExpandedBar {
    /// This bar carries the fields of `p`.
    pub open spec fn shows(self, p: PerformedBar) -> bool {
        &&& self.original_bar@ == p.bar
        &&& self.section_index == p.section_index
        &&& self.section_name@ == p.section_name
        &&& self.is_repetition == p.is_repetition
        &&& self.repetition_index == p.repetition_index
        &&& self.is_individual_ending == p.is_individual_ending
    }
}

/// `v` lists the bars of `t` in order, numbered 1, 2, ...
pub open spec fn shows_all(v: Seq<ExpandedBar>, t: Seq<PerformedBar>) -> bool {
    &&& v.len() == t.len()
    &&& forall|i: int|
        0 <= i < v.len() ==> (#[trigger] v[i]).shows(t[i]) && v[i].logical_bar_number == i + 1
}

/// Appends the bars `bars`, as `x` places them in the performance, to
/// `out`; with `renumber`, their numbers run from `offset + 1`.
fn push_block(
    out: &mut Vec<ExpandedBar>,
    bars: &Vec<Bar>,
    offset: usize,
    section_index: usize,
    section_name: &String,
    is_repetition: bool,
    repetition_index: Option<usize>,
    is_individual_ending: bool,
    renumber: bool,
    Ghost(t): Ghost<Seq<PerformedBar>>,
    Ghost(x): Ghost<Seq<PerformedBar>>,
)
    requires
        shows_all(old(out)@, t),
        old(out)@.len() + bars@.len() < usize::MAX,
        offset + bars@.len() < usize::MAX,
        x.len() == bars@.len(),
        forall|i: int|
            0 <= i < x.len() ==> {
                &&& (#[trigger] x[i]).bar == (if renumber {
                    BarView { number: (offset + i + 1) as usize, ..bars@[i]@ }
                } else {
                    bars@[i]@
                })
                &&& x[i].section_index == section_index
                &&& x[i].section_name == section_name@
                &&& x[i].is_repetition == is_repetition
                &&& x[i].repetition_index == repetition_index
                &&& x[i].is_individual_ending == is_individual_ending
            },
    ensures
        shows_all(final(out)@, t + x),
{
    let mut i: usize = 0;
    while i < bars.len()
        invariant
            i <= bars@.len(),
            shows_all(out@, t + x.take(i as int)),
            out@.len() == t.len() + i,
            t.len() + bars@.len() < usize::MAX,
            offset + bars@.len() < usize::MAX,
            x.len() == bars@.len(),
            forall|i: int|
                0 <= i < x.len() ==> {
                    &&& (#[trigger] x[i]).bar == (if renumber {
                        BarView { number: (offset + i + 1) as usize, ..bars@[i]@ }
                    } else {
                        bars@[i]@
                    })
                    &&& x[i].section_index == section_index
                    &&& x[i].section_name == section_name@
                    &&& x[i].is_repetition == is_repetition
                    &&& x[i].repetition_index == repetition_index
                    &&& x[i].is_individual_ending == is_individual_ending
                },
        decreases bars.len() - i,
    {
        let mut bar = bars[i].clone();
        if renumber {
            bar.number = offset + i + 1;
        }
        let logical = out.len() + 1;
        let e = ExpandedBar {
            original_bar: bar,
            logical_bar_number: logical,
            section_index,
            section_name: section_name.clone(),
            is_repetition,
            repetition_index,
            is_individual_ending,
        };
        assert(e.shows(x[i as int]));
        let ghost before = out@;
        out.push(e);
        assert(t + x.take(i + 1) =~= (t + x.take(i as int)).push(x[i as int]));
        assert(shows_all(out@, t + x.take(i + 1))) by {
            assert forall|j: int| 0 <= j < out@.len() implies (#[trigger] out@[j]).shows(
                (t + x.take(i + 1))[j],
            ) && out@[j].logical_bar_number == j + 1 by {
                if j < before.len() {
                    assert(out@[j] == before[j]);
                }
            }
        }
        i = i + 1;
    }
    assert(x.take(bars@.len() as int) =~= x);
}


/// The label of the bars of an individual ending: `"<name> (Ending <n>)"`
/// with `n = repetition_index + 1`.
fn make_ending_label(name: &String, repetition_index: usize) -> (label: String)
    requires
        repetition_index < usize::MAX,
    ensures
        label@ == ending_label(name@, repetition_index as int),
{
    let mut label = name.clone();
    label.append(" (Ending ");
    let number = decimal_string(repetition_index + 1);
    label.append(number.as_str());
    label.append(")");
    label
}

impl Movement {
    /// Appends one pass of repetition `r` of section `s` to `out`.
    fn push_pass(&self, out: &mut Vec<ExpandedBar>, s: usize, r: usize, Ghost(t): Ghost<Seq<PerformedBar>>)
        requires
            s < self@.sections.len(),
            r < self@.sections[s as int].repetitions.len(),
            shows_all(old(out)@, t),
            t.len() + one_pass(self@, s as int, r as int).len() < usize::MAX,
        ensures
            shows_all(final(out)@, t + one_pass(self@, s as int, r as int)),
    {
        let ghost m = self@;
        let section = &self.sections[s];
        assert(m.sections[s as int] == section@);
        assert(r < section.repetitions.len());
        let repetition = &section.repetitions[r];
        assert(m.sections[s as int].repetitions[r as int] == repetition@);
        let ghost end = pass_end(m, s as int, r as int);
        proof {
            lemma_replay_grow(m, s as int, r as int, rep_start(m, s as int, r as int), end);
        }
        let mut pass_len: usize = 0;
        let mut q: usize = repetition.start_section;
        while q <= repetition.end_section && q < self.sections.len()
            invariant
                m == self@,
                s < m.sections.len(),
                r < m.sections[s as int].repetitions.len(),
                repetition@ == m.sections[s as int].repetitions[r as int],
                end == pass_end(m, s as int, r as int),
                rep_start(m, s as int, r as int) <= q <= end,
                shows_all(out@, t + replay_upto(m, s as int, r as int, q as int)),
                pass_len == replay_upto(m, s as int, r as int, q as int).len(),
                t.len() + replay_upto(m, s as int, r as int, end).len() < usize::MAX,
            decreases self.sections.len() - q,
        {
            let rep_section = &self.sections[q];
            assert(m.sections[q as int] == rep_section@);
            proof {
                lemma_replay_grow(m, s as int, r as int, q + 1, end);
            }
            let ghost before = replay_upto(m, s as int, r as int, q as int);
            let ghost x = renumbered_from(replayed_section(m, s as int, r as int, q as int), pass_len as int);
            assert(replay_upto(m, s as int, r as int, q + 1) == before + x);
            push_block(
                out,
                &rep_section.bars,
                pass_len,
                q,
                &rep_section.name,
                true,
                Some(r),
                false,
                true,
                Ghost(t + before),
                Ghost(x),
            );
            assert(t + before + x =~= t + replay_upto(m, s as int, r as int, q + 1));
            pass_len = pass_len + rep_section.bars.len();
            q = q + 1;
        }
        assert(q == end);
        let ghost replay = replay_upto(m, s as int, r as int, end);
        match &repetition.individual_ending_pattern {
            Some(pattern) => {
                let label = make_ending_label(&section.name, r);
                let ghost x = renumbered_from(ending_block(m, s as int, r as int), pass_len as int);
                push_block(
                    out,
                    pattern,
                    pass_len,
                    s,
                    &label,
                    true,
                    Some(r),
                    true,
                    true,
                    Ghost(t + replay),
                    Ghost(x),
                );
                assert(t + replay + x =~= t + one_pass(m, s as int, r as int));
            },
            None => {
                assert(one_pass(m, s as int, r as int) =~= replay);
            },
        }
    }

    /// The performance sequence of this movement: each section's bars, then
    /// for each repetition it hosts, `num_repetitions` passes over the
    /// sections `start_section..=end_section` that exist, each followed by
    /// the individual ending if there is one. Bars replayed in a pass are
    /// numbered from 1 within the pass; the logical bar numbers run 1, 2, ...
    /// over the whole sequence.
    pub fn generate_bar_sequence(&self) -> (sequence: Vec<ExpandedBar>)
        requires
            performance(self@).len() < usize::MAX,
        ensures
            shows_all(sequence@, performance(self@)),
    {
        let ghost m = self@;
        let mut sequence: Vec<ExpandedBar> = Vec::new();
        let mut s: usize = 0;
        while s < self.sections.len()
            invariant
                m == self@,
                s <= m.sections.len(),
                shows_all(sequence@, sections_upto(m, s as int)),
                performance(m).len() < usize::MAX,
            decreases self.sections.len() - s,
        {
            proof {
                lemma_sections_grow(m, s + 1, m.sections.len() as int);
            }
            let section = &self.sections[s];
            assert(m.sections[s as int] == section@);
            let ghost prefix = sections_upto(m, s as int);
            let ghost base = base_block(m, s as int);
            let ghost nreps = section@.repetitions.len() as int;
            proof {
                lemma_repetitions_grow(m, s as int, 0, nreps);
            }
            push_block(
                &mut sequence,
                &section.bars,
                0,
                s,
                &section.name,
                false,
                None,
                false,
                false,
                Ghost(prefix),
                Ghost(base),
            );
            let mut r: usize = 0;
            while r < section.repetitions.len()
                invariant
                    m == self@,
                    s < m.sections.len(),
                    section@ == m.sections[s as int],
                    nreps == section@.repetitions.len(),
                    r <= nreps,
                    prefix == sections_upto(m, s as int),
                    base == base_block(m, s as int),
                    shows_all(sequence@, prefix + base + repetitions_upto(m, s as int, r as int)),
                    prefix.len() + base.len() + repetitions_upto(m, s as int, nreps).len()
                        < usize::MAX,
                decreases section.repetitions.len() - r,
            {
                proof {
                    lemma_repetitions_grow(m, s as int, r + 1, nreps);
                }
                let repetition = &section.repetitions[r];
                assert(m.sections[s as int].repetitions[r as int] == repetition@);
                let ghost before = prefix + base + repetitions_upto(m, s as int, r as int);
                let ghost num = repetition@.num_repetitions as int;
                let mut k: usize = 0;
                while k < repetition.num_repetitions
                    invariant
                        m == self@,
                        s < m.sections.len(),
                        r < m.sections[s as int].repetitions.len(),
                        num == m.sections[s as int].repetitions[r as int].num_repetitions,
                        repetition@ == m.sections[s as int].repetitions[r as int],
                        k <= num,
                        shows_all(sequence@, before + passes(m, s as int, r as int, k as int)),
                        before.len() + passes(m, s as int, r as int, num).len() < usize::MAX,
                    decreases repetition.num_repetitions - k,
                {
                    proof {
                        lemma_passes_grow(m, s as int, r as int, k + 1, num);
                    }
                    self.push_pass(
                        &mut sequence,
                        s,
                        r,
                        Ghost(before + passes(m, s as int, r as int, k as int)),
                    );
                    assert(before + passes(m, s as int, r as int, k as int) + one_pass(
                        m,
                        s as int,
                        r as int,
                    ) =~= before + passes(m, s as int, r as int, k + 1));
                    k = k + 1;
                }
                assert(before + passes(m, s as int, r as int, num) =~= prefix + base
                    + repetitions_upto(m, s as int, r + 1));
                r = r + 1;
            }
            assert(prefix + base + repetitions_upto(m, s as int, nreps) =~= sections_upto(
                m,
                s + 1,
            ));
            s = s + 1;
        }
        sequence
    }

    /// The number of bars in the performance sequence.
    pub fn total_bar_count(&self) -> (n: usize)
        requires
            performance(self@).len() < usize::MAX,
        ensures
            n == performance(self@).len(),
    {
        self.generate_bar_sequence().len()
    }
}


proof fn lemma_replay_numbering(m: MovementView, s: int, r: int, q: int, i: int)
    requires
        0 <= i < replay_upto(m, s, r, q).len(),
        replay_upto(m, s, r, q).len() < usize::MAX,
    ensures
        replay_upto(m, s, r, q)[i].bar.number == i + 1,
    decreases q - rep_start(m, s, r),
{
    if q > rep_start(m, s, r) {
        let before = replay_upto(m, s, r, q - 1);
        if i < before.len() {
            lemma_replay_numbering(m, s, r, q - 1, i);
        }
    }
}

/// Within each pass of a repetition, the bars are numbered 1, 2, ... in the
/// order they are played.
pub proof fn lemma_pass_numbering(m: MovementView, s: int, r: int, i: int)
    requires
        0 <= i < one_pass(m, s, r).len(),
        one_pass(m, s, r).len() < usize::MAX,
    ensures
        one_pass(m, s, r)[i].bar.number == i + 1,
{
    let replay = replay_upto(m, s, r, pass_end(m, s, r));
    if i < replay.len() {
        lemma_replay_numbering(m, s, r, pass_end(m, s, r), i);
    }
}

/// `k` passes of a repetition play `k` times as many bars as one pass.
pub proof fn lemma_passes_len(m: MovementView, s: int, r: int, k: int)
    requires
        k >= 0,
    ensures
        passes(m, s, r, k).len() == k * one_pass(m, s, r).len(),
    decreases k,
{
    if k > 0 {
        lemma_passes_len(m, s, r, k - 1);
        assert((k - 1) * one_pass(m, s, r).len() + one_pass(m, s, r).len() == k * one_pass(
            m,
            s,
            r,
        ).len()) by (nonlinear_arith);
    } else {
        assert(0 * one_pass(m, s, r).len() == 0) by (nonlinear_arith);
    }
}

/// The number of bars of the sections `a..b` of a movement.
pub open spec fn bars_between(m: MovementView, a: int, b: int) -> nat
    decreases b - a,
{
    if b <= a {
        0
    } else {
        bars_between(m, a, b - 1) + m.sections[b - 1].bars.len()
    }
}

/// The number of bars of the individual ending of repetition `r` of
/// section `s` (0 without one).
pub open spec fn ending_len(m: MovementView, s: int, r: int) -> nat {
    match m.sections[s].repetitions[r].individual_ending_pattern {
        Some(p) => p.len(),
        None => 0,
    }
}

proof fn lemma_replay_len(m: MovementView, s: int, r: int, q: int)
    ensures
        replay_upto(m, s, r, q).len() == bars_between(m, rep_start(m, s, r), q),
    decreases q - rep_start(m, s, r),
{
    if q > rep_start(m, s, r) {
        lemma_replay_len(m, s, r, q - 1);
    }
}

/// One pass of a repetition plays the bars of the sections it replays
/// (those of `start..=end` that exist), then its individual ending.
pub proof fn lemma_one_pass_len(m: MovementView, s: int, r: int)
    ensures
        one_pass(m, s, r).len() == bars_between(m, rep_start(m, s, r), pass_end(m, s, r))
            + ending_len(m, s, r),
{
    lemma_replay_len(m, s, r, pass_end(m, s, r));
}

/// The bars played by the repetitions `0..rr` of section `s`: each plays
/// its number of passes.
pub open spec fn repetition_bars(m: MovementView, s: int, rr: int) -> int
    decreases rr,
{
    if rr <= 0 {
        0
    } else {
        repetition_bars(m, s, rr - 1) + m.sections[s].repetitions[rr - 1].num_repetitions
            * one_pass(m, s, rr - 1).len()
    }
}

proof fn lemma_repetitions_len(m: MovementView, s: int, rr: int)
    ensures
        repetitions_upto(m, s, rr).len() == repetition_bars(m, s, rr),
    decreases rr,
{
    if rr > 0 {
        lemma_repetitions_len(m, s, rr - 1);
        lemma_passes_len(m, s, rr - 1, m.sections[s].repetitions[rr - 1].num_repetitions as int);
    }
}

/// A section is played as its own bars followed by the passes of the
/// repetitions it hosts: as many bars as it has, plus, for each repetition,
/// its number of passes times the bars of one pass.
pub proof fn lemma_section_block_len(m: MovementView, s: int)
    ensures
        section_block(m, s).len() == m.sections[s].bars.len() + repetition_bars(
            m,
            s,
            m.sections[s].repetitions.len() as int,
        ),
{
    lemma_repetitions_len(m, s, m.sections[s].repetitions.len() as int);
}

/// The bars that the repetitions `0..rr` of section `s` play, written out:
/// each plays its number of passes, and a pass plays the bars of the
/// sections it replays (those of `start..=end` that exist) and its ending.
pub open spec fn repetition_bars_formula(m: MovementView, s: int, rr: int) -> int
    decreases rr,
{
    if rr <= 0 {
        0
    } else {
        repetition_bars_formula(m, s, rr - 1) + m.sections[s].repetitions[rr - 1].num_repetitions * (
        bars_between(m, rep_start(m, s, rr - 1), pass_end(m, s, rr - 1)) + ending_len(
            m,
            s,
            rr - 1,
        ))
    }
}

/// The bars that the sections `0..ss` of a movement play, written out:
/// each section's own bars and the bars of the repetitions it hosts.
pub open spec fn movement_bars_formula(m: MovementView, ss: int) -> int
    decreases ss,
{
    if ss <= 0 {
        0
    } else {
        movement_bars_formula(m, ss - 1) + m.sections[ss - 1].bars.len() + repetition_bars_formula(
            m,
            ss - 1,
            m.sections[ss - 1].repetitions.len() as int,
        )
    }
}

proof fn lemma_repetition_bars_formula(m: MovementView, s: int, rr: int)
    ensures
        repetition_bars(m, s, rr) == repetition_bars_formula(m, s, rr),
    decreases rr,
{
    if rr > 0 {
        lemma_repetition_bars_formula(m, s, rr - 1);
        lemma_one_pass_len(m, s, rr - 1);
    }
}

proof fn lemma_sections_len(m: MovementView, ss: int)
    ensures
        sections_upto(m, ss).len() == movement_bars_formula(m, ss),
    decreases ss,
{
    if ss > 0 {
        lemma_sections_len(m, ss - 1);
        lemma_section_block_len(m, ss - 1);
        lemma_repetition_bars_formula(m, ss - 1, m.sections[ss - 1].repetitions.len() as int);
    }
}

/// A movement plays, for each section, its own bars and, for each
/// repetition it hosts, the number of passes times the bars of one pass
/// (the replayed sections' bars and the ending).
pub proof fn lemma_performance_len(m: MovementView)
    ensures
        performance(m).len() == movement_bars_formula(m, m.sections.len() as int),
{
    lemma_sections_len(m, m.sections.len() as int);
}

/// Every count of a movement fits a `usize`, as it does for a movement
/// held in memory.
pub open spec fn counts_fit(m: MovementView) -> bool {
    &&& m.sections.len() <= usize::MAX
    &&& forall|q: int|
        0 <= q < m.sections.len() ==> {
            &&& (#[trigger] m.sections[q]).bars.len() <= usize::MAX
            &&& m.sections[q].repetitions.len() <= usize::MAX
            &&& forall|r: int|
                0 <= r < m.sections[q].repetitions.len() ==> match (
                #[trigger] m.sections[q].repetitions[r]).individual_ending_pattern {
                    Some(p) => p.len() <= usize::MAX,
                    None => true,
                }
        }
}

proof fn lemma_replay_prefix(m: MovementView, s: int, r: int, a: int, b: int, p: int)
    requires
        a <= b,
        0 <= p < replay_upto(m, s, r, a).len(),
    ensures
        replay_upto(m, s, r, b)[p] == replay_upto(m, s, r, a)[p],
    decreases b - a,
{
    if a < b {
        lemma_replay_grow(m, s, r, a, b - 1);
        lemma_replay_prefix(m, s, r, a, b - 1, p);
    }
}

/// Each pass of a repetition replays its sections in order, each section's
/// bars in order: bar `j` of section `q` (a section of the repetition's
/// range that exists) stands at position `p` = (bars of the replayed
/// sections before `q`) + `j` of the pass, and is that bar with its number
/// reset to `p + 1`, its numerator, denominator and name kept.
pub proof fn lemma_pass_replays_in_order(m: MovementView, s: int, r: int, q: int, j: int)
    requires
        counts_fit(m),
        0 <= s < m.sections.len(),
        0 <= r < m.sections[s].repetitions.len(),
        m.sections[s].repetitions[r].start_section <= q <= m.sections[s].repetitions[r].end_section,
        q < m.sections.len(),
        0 <= j < m.sections[q].bars.len(),
    ensures
        bars_between(m, m.sections[s].repetitions[r].start_section as int, q) + j < one_pass(
            m,
            s,
            r,
        ).len(),
        ({
            let p = bars_between(m, m.sections[s].repetitions[r].start_section as int, q) + j;
            let x = one_pass(m, s, r)[p];
            &&& x.bar == (BarView { number: (p + 1) as usize, ..m.sections[q].bars[j] })
            &&& x.section_index == q
            &&& x.section_name == m.sections[q].name
            &&& x.is_repetition
            &&& x.repetition_index == Some(r as usize)
            &&& !x.is_individual_ending
            &&& x.bar_index_in_section == j
            &&& x.host_section == Some(s as usize)
        }),
{
    let start = rep_start(m, s, r);
    let end = pass_end(m, s, r);
    assert(q < end);
    lemma_replay_len(m, s, r, q);
    lemma_replay_len(m, s, r, q + 1);
    let before = replay_upto(m, s, r, q);
    let p = bars_between(m, start, q) + j;
    assert(replay_upto(m, s, r, q + 1)[p] == renumbered_from(
        replayed_section(m, s, r, q),
        before.len() as int,
    )[j]);
    lemma_replay_grow(m, s, r, q + 1, end);
    lemma_replay_prefix(m, s, r, q + 1, end, p);
    let replay = replay_upto(m, s, r, end);
    assert(one_pass(m, s, r)[p] == replay[p]);
}

/// Bar `a` is bar `b` in all but its number.
pub open spec fn same_bar_but_number(a: BarView, b: BarView) -> bool {
    &&& a.numerator == b.numerator
    &&& a.denominator == b.denominator
    &&& a.name == b.name
}

/// The indices that a performed bar carries address the bar it plays: for
/// an individual ending, bar `bar_index_in_section` of the ending of
/// repetition `repetition_index` of section `section_index`; otherwise bar
/// `bar_index_in_section` of section `section_index`.
pub open spec fn addresses(m: MovementView, x: PerformedBar) -> bool {
    &&& x.section_index < m.sections.len()
    &&& if x.is_individual_ending {
        &&& x.repetition_index is Some
        &&& x.repetition_index->0 < m.sections[x.section_index as int].repetitions.len()
        &&& m.sections[x.section_index as int].repetitions[x.repetition_index->0 as int].individual_ending_pattern
            matches Some(p)
        &&& x.bar_index_in_section < p.len()
        &&& same_bar_but_number(x.bar, p[x.bar_index_in_section as int])
    } else {
        &&& x.bar_index_in_section < m.sections[x.section_index as int].bars.len()
        &&& same_bar_but_number(
            x.bar,
            m.sections[x.section_index as int].bars[x.bar_index_in_section as int],
        )
    }
}

/// Every bar of `t` addresses the bar it plays in `m`.
pub open spec fn all_addressed(m: MovementView, t: Seq<PerformedBar>) -> bool {
    forall|j: int| 0 <= j < t.len() ==> addresses(m, #[trigger] t[j])
}

proof fn lemma_addressed_concat(m: MovementView, a: Seq<PerformedBar>, b: Seq<PerformedBar>)
    requires
        all_addressed(m, a),
        all_addressed(m, b),
    ensures
        all_addressed(m, a + b),
{
    assert forall|j: int| 0 <= j < (a + b).len() implies addresses(m, #[trigger] (a + b)[j]) by {
        if j < a.len() {
            assert((a + b)[j] == a[j]);
        } else {
            assert((a + b)[j] == b[j - a.len()]);
        }
    }
}

proof fn lemma_addressed_renumbered(m: MovementView, x: Seq<PerformedBar>, offset: int)
    requires
        all_addressed(m, x),
    ensures
        all_addressed(m, renumbered_from(x, offset)),
{
    assert forall|j: int| 0 <= j < renumbered_from(x, offset).len() implies addresses(
        m,
        #[trigger] renumbered_from(x, offset)[j],
    ) by {
        assert(addresses(m, x[j]));
    }
}

proof fn lemma_addressed_replay(m: MovementView, s: int, r: int, q: int)
    requires
        counts_fit(m),
        q <= pass_end(m, s, r),
    ensures
        all_addressed(m, replay_upto(m, s, r, q)),
    decreases q - rep_start(m, s, r),
{
    if q > rep_start(m, s, r) {
        lemma_addressed_replay(m, s, r, q - 1);
        let before = replay_upto(m, s, r, q - 1);
        let x = replayed_section(m, s, r, q - 1);
        assert(q - 1 < m.sections.len());
        assert(m.sections[q - 1].bars.len() <= usize::MAX);
        assert forall|i: int| 0 <= i < x.len() implies addresses(m, #[trigger] x[i]) by {
            assert(x[i].bar == m.sections[q - 1].bars[i]);
        }
        lemma_addressed_renumbered(m, x, before.len() as int);
        lemma_addressed_concat(m, before, renumbered_from(x, before.len() as int));
    }
}

proof fn lemma_addressed_pass(m: MovementView, s: int, r: int)
    requires
        counts_fit(m),
        0 <= s < m.sections.len(),
        0 <= r < m.sections[s].repetitions.len(),
    ensures
        all_addressed(m, one_pass(m, s, r)),
{
    let replay = replay_upto(m, s, r, pass_end(m, s, r));
    lemma_addressed_replay(m, s, r, pass_end(m, s, r));
    let e = ending_block(m, s, r);
    assert(m.sections[s].repetitions.len() <= usize::MAX);
    assert forall|i: int| 0 <= i < e.len() implies addresses(m, #[trigger] e[i]) by {
        let p = m.sections[s].repetitions[r].individual_ending_pattern->0;
        assert(p.len() <= usize::MAX);
        assert(e[i].bar == p[i]);
    }
    lemma_addressed_renumbered(m, e, replay.len() as int);
    lemma_addressed_concat(m, replay, renumbered_from(e, replay.len() as int));
}

proof fn lemma_addressed_passes(m: MovementView, s: int, r: int, k: int)
    requires
        counts_fit(m),
        0 <= s < m.sections.len(),
        0 <= r < m.sections[s].repetitions.len(),
    ensures
        all_addressed(m, passes(m, s, r, k)),
    decreases k,
{
    if k > 0 {
        lemma_addressed_passes(m, s, r, k - 1);
        lemma_addressed_pass(m, s, r);
        lemma_addressed_concat(m, passes(m, s, r, k - 1), one_pass(m, s, r));
    }
}

proof fn lemma_addressed_repetitions(m: MovementView, s: int, rr: int)
    requires
        counts_fit(m),
        0 <= s < m.sections.len(),
        rr <= m.sections[s].repetitions.len(),
    ensures
        all_addressed(m, repetitions_upto(m, s, rr)),
    decreases rr,
{
    if rr > 0 {
        let k = m.sections[s].repetitions[rr - 1].num_repetitions as int;
        lemma_addressed_repetitions(m, s, rr - 1);
        lemma_addressed_passes(m, s, rr - 1, k);
        lemma_addressed_concat(m, repetitions_upto(m, s, rr - 1), passes(m, s, rr - 1, k));
    }
}

proof fn lemma_addressed_sections(m: MovementView, ss: int)
    requires
        counts_fit(m),
        ss <= m.sections.len(),
    ensures
        all_addressed(m, sections_upto(m, ss)),
    decreases ss,
{
    if ss > 0 {
        lemma_addressed_sections(m, ss - 1);
        let n = m.sections[ss - 1].repetitions.len() as int;
        lemma_addressed_repetitions(m, ss - 1, n);
        let b = base_block(m, ss - 1);
        assert(m.sections[ss - 1].bars.len() <= usize::MAX);
        assert forall|i: int| 0 <= i < b.len() implies addresses(m, #[trigger] b[i]) by {
            assert(b[i].bar == m.sections[ss - 1].bars[i]);
        }
        lemma_addressed_concat(m, base_block(m, ss - 1), repetitions_upto(m, ss - 1, n));
        lemma_addressed_concat(m, sections_upto(m, ss - 1), section_block(m, ss - 1));
    }
}

/// Every bar of a movement's performance plays the bar that its section,
/// repetition and index address, in all but its number: a section's own
/// bar, a replayed section's bar, or an ending's bar.
pub proof fn lemma_performed_bars_addressed(m: MovementView, j: int)
    requires
        counts_fit(m),
        0 <= j < performance(m).len(),
    ensures
        addresses(m, performance(m)[j]),
{
    lemma_addressed_sections(m, m.sections.len() as int);
}

/// In `s`, a bar is a repetition bar exactly when it names a repetition.
pub open spec fn flags_agree(s: Seq<PerformedBar>) -> bool {
    forall|j: int| 0 <= j < s.len() ==> (#[trigger] s[j]).is_repetition == s[j].repetition_index is Some
}

proof fn lemma_flags_concat(a: Seq<PerformedBar>, b: Seq<PerformedBar>)
    requires
        flags_agree(a),
        flags_agree(b),
    ensures
        flags_agree(a + b),
{
    assert forall|j: int| 0 <= j < (a + b).len() implies (#[trigger] (a + b)[j]).is_repetition == (a
        + b)[j].repetition_index is Some by {
        if j < a.len() {
            assert((a + b)[j] == a[j]);
        } else {
            assert((a + b)[j] == b[j - a.len()]);
        }
    }
}

proof fn lemma_flags_replay(m: MovementView, s: int, r: int, q: int)
    ensures
        flags_agree(replay_upto(m, s, r, q)),
    decreases q - rep_start(m, s, r),
{
    if q > rep_start(m, s, r) {
        lemma_flags_replay(m, s, r, q - 1);
        let before = replay_upto(m, s, r, q - 1);
        lemma_flags_concat(before, renumbered_from(replayed_section(m, s, r, q - 1), before.len() as int));
    }
}

proof fn lemma_flags_pass(m: MovementView, s: int, r: int)
    ensures
        flags_agree(one_pass(m, s, r)),
{
    let replay = replay_upto(m, s, r, pass_end(m, s, r));
    lemma_flags_replay(m, s, r, pass_end(m, s, r));
    lemma_flags_concat(replay, renumbered_from(ending_block(m, s, r), replay.len() as int));
}

proof fn lemma_flags_passes(m: MovementView, s: int, r: int, k: int)
    ensures
        flags_agree(passes(m, s, r, k)),
    decreases k,
{
    if k > 0 {
        lemma_flags_passes(m, s, r, k - 1);
        lemma_flags_pass(m, s, r);
        lemma_flags_concat(passes(m, s, r, k - 1), one_pass(m, s, r));
    }
}

proof fn lemma_flags_repetitions(m: MovementView, s: int, rr: int)
    ensures
        flags_agree(repetitions_upto(m, s, rr)),
    decreases rr,
{
    if rr > 0 {
        let k = m.sections[s].repetitions[rr - 1].num_repetitions as int;
        lemma_flags_repetitions(m, s, rr - 1);
        lemma_flags_passes(m, s, rr - 1, k);
        lemma_flags_concat(repetitions_upto(m, s, rr - 1), passes(m, s, rr - 1, k));
    }
}

proof fn lemma_flags_sections(m: MovementView, ss: int)
    ensures
        flags_agree(sections_upto(m, ss)),
    decreases ss,
{
    if ss > 0 {
        lemma_flags_sections(m, ss - 1);
        lemma_flags_repetitions(m, ss - 1, m.sections[ss - 1].repetitions.len() as int);
        lemma_flags_concat(
            base_block(m, ss - 1),
            repetitions_upto(m, ss - 1, m.sections[ss - 1].repetitions.len() as int),
        );
        lemma_flags_concat(sections_upto(m, ss - 1), section_block(m, ss - 1));
    }
}

/// In the performance of a movement, a bar is a repetition bar exactly when
/// it names the repetition that plays it.
pub proof fn lemma_repetition_bars_named(m: MovementView)
    ensures
        flags_agree(performance(m)),
{
    lemma_flags_sections(m, m.sections.len() as int);
}

/// The number of bars played in the movements `0..mm`.
pub open spec fn bars_in_movements(c: CompositionView, mm: int) -> nat
    decreases mm,
{
    if mm <= 0 {
        0
    } else {
        bars_in_movements(c, mm - 1) + performance(c.movements[mm - 1]).len()
    }
}

/// The number of bars played in the whole composition.
pub open spec fn composition_bar_total(c: CompositionView) -> nat {
    bars_in_movements(c, c.movements.len() as int)
}

/// More movements play at least as many bars.
pub(crate) proof fn lemma_movements_grow(c: CompositionView, a: int, b: int)
    requires
        a <= b,
    ensures
        bars_in_movements(c, a) <= bars_in_movements(c, b),
    decreases b - a,
{
    if a < b {
        lemma_movements_grow(c, a, b - 1);
    }
}

impl Composition {
    /// The number of bars played across all movements, repetitions included.
    pub fn total_bar_count(&self) -> (n: usize)
        requires
            composition_bar_total(self@) < usize::MAX,
        ensures
            n == composition_bar_total(self@),
    {
        let ghost c = self@;
        let mut total: usize = 0;
        let mut i: usize = 0;
        while i < self.movements.len()
            invariant
                c == self@,
                i <= c.movements.len(),
                total == bars_in_movements(c, i as int),
                composition_bar_total(c) < usize::MAX,
            decreases self.movements.len() - i,
        {
            proof {
                lemma_movements_grow(c, i + 1, c.movements.len() as int);
            }
            assert(c.movements[i as int] == self.movements@[i as int]@);
            let n = self.movements[i].total_bar_count();
            total = total + n;
            i = i + 1;
        }
        total
    }
}

} // verus!
