//! Lookup of a bar of a composition by its 1-based number across the whole
//! performance, movements in order and repetitions expanded.
use vstd::prelude::*;
use crate::composition::{Composition, CompositionView, Movement, Repetition, Section};
use crate::performance::{
    base_block, bars_in_movements, composition_bar_total, ending_block, lemma_movements_grow,
    lemma_passes_grow, lemma_repetitions_grow, lemma_replay_grow, lemma_sections_grow, one_pass,
    pass_end, passes, performance, rep_start, repetitions_upto, replay_upto, replayed_section,
    renumbered_from, sections_upto, PerformedBar, counts_fit, lemma_performed_bars_addressed,
    same_bar_but_number,
};

verus! {

/// Where one bar of the performance comes from.
#[derive(Debug, Clone, Copy, PartialEq, Eq, Structural)]
pub struct BarReferenceInfo {
    pub movement_index: usize,
    pub section_index: usize,
    pub repetition_index: Option<usize>,
    /// The section that hosts the repetition.
    pub repetition_section_index: Option<usize>,
    pub is_individual_ending: bool,
    pub bar_index_in_section: usize,
}

/// The reference information of a performed bar of movement `mi`.
pub open spec fn bar_info(mi: int, p: PerformedBar) -> BarReferenceInfo {
    BarReferenceInfo {
        movement_index: mi as usize,
        section_index: p.section_index,
        repetition_index: p.repetition_index,
        repetition_section_index: p.host_section,
        is_individual_ending: p.is_individual_ending,
        bar_index_in_section: p.bar_index_in_section,
    }
}

/// The reference information of the performed bars `x` of movement `mi`.
pub open spec fn infos_of(x: Seq<PerformedBar>, mi: int) -> Seq<BarReferenceInfo> {
    Seq::new(x.len(), |i: int| bar_info(mi, x[i]))
}

/// The reference information of every bar played in movements `0..mm`.
pub open spec fn infos_upto(c: CompositionView, mm: int) -> Seq<BarReferenceInfo>
    decreases mm,
{
    if mm <= 0 {
        seq![]
    } else {
        infos_upto(c, mm - 1) + infos_of(performance(c.movements[mm - 1]), mm - 1)
    }
}

/// The reference information of every bar of the composition, in order.
pub open spec fn composition_infos(c: CompositionView) -> Seq<BarReferenceInfo> {
    infos_upto(c, c.movements.len() as int)
}

/// The indices of `info` name a movement, a section and, where present, a
/// repetition of the composition.
pub open spec fn info_valid(c: CompositionView, info: BarReferenceInfo) -> bool {
    &&& info.movement_index < c.movements.len()
    &&& info.section_index < c.movements[info.movement_index as int].sections.len()
    &&& match info.repetition_index {
        Some(r) => match info.repetition_section_index {
            Some(h) => h < c.movements[info.movement_index as int].sections.len() && r
                < c.movements[info.movement_index as int].sections[h as int].repetitions.len(),
            None => false,
        },
        None => true,
    }
}

/// `v` holds the single-bar ranges `(i + 1, i + 1)` with the information `t[i]`.
pub open spec fn ranges_hold(
    v: Seq<((usize, usize), BarReferenceInfo)>,
    t: Seq<BarReferenceInfo>,
) -> bool {
    &&& v.len() == t.len()
    &&& forall|i: int| 0 <= i < v.len() ==> #[trigger] v[i] == (((i + 1) as usize, (i + 1) as usize), t[i])
}

/// The entries of two runs of bars, one after the other, are the entries of
/// each, one after the other.
proof fn lemma_infos_concat(a: Seq<PerformedBar>, b: Seq<PerformedBar>, mi: int)
    ensures
        infos_of(a + b, mi) =~= infos_of(a, mi) + infos_of(b, mi),
{
}

/// Renumbering bars changes none of their entries.
proof fn lemma_infos_renumbered(x: Seq<PerformedBar>, offset: int, mi: int)
    ensures
        infos_of(renumbered_from(x, offset), mi) =~= infos_of(x, mi),
{
}

/// The movements `0..mm` have one entry per bar played.
pub(crate) proof fn lemma_infos_len(c: CompositionView, mm: int)
    ensures
        infos_upto(c, mm).len() == bars_in_movements(c, mm),
    decreases mm,
{
    if mm > 0 {
        lemma_infos_len(c, mm - 1);
    }
}

proof fn lemma_infos_prefix(c: CompositionView, a: int, b: int, k: int)
    requires
        0 <= a <= b,
        0 <= k < infos_upto(c, a).len(),
    ensures
        k < infos_upto(c, b).len(),
        infos_upto(c, b)[k] == infos_upto(c, a)[k],
    decreases b - a,
{
    if a < b {
        lemma_infos_prefix(c, a, b - 1, k);
    }
}

/// The lookup covers exactly the bars of the performance: there is one
/// entry per bar played, as many as the composition's total bar count.
pub proof fn lemma_lookup_covers_all_bars(c: CompositionView)
    ensures
        composition_infos(c).len() == composition_bar_total(c),
{
    lemma_infos_len(c, c.movements.len() as int);
}

/// The lookup agrees with the performance sequence of each movement: the
/// bar at position `j` of the performance of movement `mi` has the number
/// `(bars played in earlier movements) + j + 1`, and its entry names that
/// movement and the bar's section, repetition, hosting section, ending flag
/// and index within its section.
pub proof fn lemma_lookup_matches_performance(c: CompositionView, mi: int, j: int)
    requires
        0 <= mi < c.movements.len(),
        0 <= j < performance(c.movements[mi]).len(),
    ensures
        bars_in_movements(c, mi) + j < composition_infos(c).len(),
        composition_infos(c)[bars_in_movements(c, mi) + j] == bar_info(
            mi,
            performance(c.movements[mi])[j],
        ),
{
    lemma_infos_len(c, mi);
    let k = bars_in_movements(c, mi) + j;
    assert(infos_upto(c, mi + 1)[k] == bar_info(mi, performance(c.movements[mi])[j]));
    lemma_infos_prefix(c, mi + 1, c.movements.len() as int, k);
}

/// Appends `n` single-bar ranges numbered from `*current`, with the given
/// reference information and bar indices `0..n`.
fn push_ranges(
    bar_ranges: &mut Vec<((usize, usize), BarReferenceInfo)>,
    current: &mut usize,
    n: usize,
    movement_index: usize,
    section_index: usize,
    repetition_index: Option<usize>,
    repetition_section_index: Option<usize>,
    is_individual_ending: bool,
    Ghost(c): Ghost<CompositionView>,
    Ghost(t): Ghost<Seq<BarReferenceInfo>>,
    Ghost(x): Ghost<Seq<BarReferenceInfo>>,
)
    requires
        ranges_hold(old(bar_ranges)@, t),
        *old(current) == t.len() + 1,
        t.len() + n < usize::MAX,
        x.len() == n,
        forall|i: int|
            0 <= i < n ==> #[trigger] x[i] == (BarReferenceInfo {
                movement_index,
                section_index,
                repetition_index,
                repetition_section_index,
                is_individual_ending,
                bar_index_in_section: i as usize,
            }),
        forall|i: int| 0 <= i < t.len() ==> info_valid(c, #[trigger] t[i]),
        info_valid(
            c,
            BarReferenceInfo {
                movement_index,
                section_index,
                repetition_index,
                repetition_section_index,
                is_individual_ending,
                bar_index_in_section: 0,
            },
        ),
    ensures
        ranges_hold(final(bar_ranges)@, t + x),
        *final(current) == t.len() + n + 1,
        forall|i: int| 0 <= i < (t + x).len() ==> info_valid(c, #[trigger] (t + x)[i]),
{
    let mut i: usize = 0;
    while i < n
        invariant
            i <= n,
            x.len() == n,
            t.len() + n < usize::MAX,
            ranges_hold(bar_ranges@, t + x.take(i as int)),
            *current == t.len() + i + 1,
            forall|j: int|
                0 <= j < n ==> #[trigger] x[j] == (BarReferenceInfo {
                    movement_index,
                    section_index,
                    repetition_index,
                    repetition_section_index,
                    is_individual_ending,
                    bar_index_in_section: j as usize,
                }),
        decreases n - i,
    {
        let info = BarReferenceInfo {
            movement_index,
            section_index,
            repetition_index,
            repetition_section_index,
            is_individual_ending,
            bar_index_in_section: i,
        };
        let ghost before = bar_ranges@;
        bar_ranges.push(((*current, *current), info));
        assert(t + x.take(i + 1) =~= (t + x.take(i as int)).push(x[i as int]));
        assert forall|j: int| 0 <= j < bar_ranges@.len() implies #[trigger] bar_ranges@[j] == (
        ((j + 1) as usize, (j + 1) as usize),
        (t + x.take(i + 1))[j],
        ) by {
            if j < before.len() {
                assert(bar_ranges@[j] == before[j]);
            }
        }
        *current = *current + 1;
        i = i + 1;
    }
    assert(x.take(n as int) =~= x);
    assert forall|i: int| 0 <= i < (t + x).len() implies info_valid(c, #[trigger] (t + x)[i]) by {
        if i >= t.len() {
            assert((t + x)[i] == x[i - t.len()]);
        }
    }
}


/// Appends the ranges of one pass of repetition `r` of section `s` of
/// movement `mi`.
fn push_pass_ranges(
    bar_ranges: &mut Vec<((usize, usize), BarReferenceInfo)>,
    current: &mut usize,
    movement: &Movement,
    movement_index: usize,
    s: usize,
    r: usize,
    Ghost(c): Ghost<CompositionView>,
    Ghost(t): Ghost<Seq<BarReferenceInfo>>,
)
    requires
        movement_index < c.movements.len(),
        c.movements[movement_index as int] == movement@,
        s < movement@.sections.len(),
        r < movement@.sections[s as int].repetitions.len(),
        ranges_hold(old(bar_ranges)@, t),
        *old(current) == t.len() + 1,
        t.len() + one_pass(movement@, s as int, r as int).len() < usize::MAX,
        forall|i: int| 0 <= i < t.len() ==> info_valid(c, #[trigger] t[i]),
    ensures
        ranges_hold(
            final(bar_ranges)@,
            t + infos_of(one_pass(movement@, s as int, r as int), movement_index as int),
        ),
        *final(current) == t.len() + one_pass(movement@, s as int, r as int).len() + 1,
        forall|i: int|
            0 <= i < (t + infos_of(one_pass(movement@, s as int, r as int), movement_index as int)).len()
                ==> info_valid(
                c,
                #[trigger] (t + infos_of(
                    one_pass(movement@, s as int, r as int),
                    movement_index as int,
                ))[i],
            ),
{
    let ghost m = movement@;
    let ghost mi = movement_index as int;
    let section = &movement.sections[s];
    assert(m.sections[s as int] == section@);
    assert(r < section.repetitions.len());
    let repetition = &section.repetitions[r];
    assert(m.sections[s as int].repetitions[r as int] == repetition@);
    let ghost end = pass_end(m, s as int, r as int);
    proof {
        lemma_replay_grow(m, s as int, r as int, rep_start(m, s as int, r as int), end);
    }
    let mut q: usize = repetition.start_section;
    while q <= repetition.end_section && q < movement.sections.len()
        invariant
            m == movement@,
            mi == movement_index,
            movement_index < c.movements.len(),
            c.movements[mi] == m,
            s < m.sections.len(),
            r < m.sections[s as int].repetitions.len(),
            repetition@ == m.sections[s as int].repetitions[r as int],
            end == pass_end(m, s as int, r as int),
            rep_start(m, s as int, r as int) <= q <= end,
            ranges_hold(bar_ranges@, t + infos_of(replay_upto(m, s as int, r as int, q as int), mi)),
            *current == t.len() + replay_upto(m, s as int, r as int, q as int).len() + 1,
            t.len() + replay_upto(m, s as int, r as int, end).len() < usize::MAX,
            forall|i: int|
                0 <= i < (t + infos_of(replay_upto(m, s as int, r as int, q as int), mi)).len()
                    ==> info_valid(
                    c,
                    #[trigger] (t + infos_of(replay_upto(m, s as int, r as int, q as int), mi))[i],
                ),
        decreases movement.sections.len() - q,
    {
        let rep_section = &movement.sections[q];
        assert(m.sections[q as int] == rep_section@);
        proof {
            lemma_replay_grow(m, s as int, r as int, q + 1, end);
        }
        let ghost before = replay_upto(m, s as int, r as int, q as int);
        let ghost raw = replayed_section(m, s as int, r as int, q as int);
        let ghost x = renumbered_from(raw, before.len() as int);
        assert(replay_upto(m, s as int, r as int, q + 1) == before + x);
        proof {
            lemma_infos_concat(before, x, mi);
            lemma_infos_renumbered(raw, before.len() as int, mi);
        }
        push_ranges(
            bar_ranges,
            current,
            rep_section.bars.len(),
            movement_index,
            q,
            Some(r),
            Some(s),
            false,
            Ghost(c),
            Ghost(t + infos_of(before, mi)),
            Ghost(infos_of(raw, mi)),
        );
        assert(t + infos_of(before, mi) + infos_of(raw, mi) =~= t + infos_of(
            replay_upto(m, s as int, r as int, q + 1),
            mi,
        ));
        q = q + 1;
    }
    assert(q == end);
    let ghost replay = replay_upto(m, s as int, r as int, end);
    let ghost ending = ending_block(m, s as int, r as int);
    proof {
        lemma_infos_concat(replay, renumbered_from(ending, replay.len() as int), mi);
        lemma_infos_renumbered(ending, replay.len() as int, mi);
    }
    match &repetition.individual_ending_pattern {
        Some(pattern) => {
            push_ranges(
                bar_ranges,
                current,
                pattern.len(),
                movement_index,
                s,
                Some(r),
                Some(s),
                true,
                Ghost(c),
                Ghost(t + infos_of(replay, mi)),
                Ghost(infos_of(ending, mi)),
            );
            assert(t + infos_of(replay, mi) + infos_of(ending, mi) =~= t + infos_of(
                one_pass(m, s as int, r as int),
                mi,
            ));
        },
        None => {
            assert(infos_of(one_pass(m, s as int, r as int), mi) =~= infos_of(replay, mi));
        },
    }
}

/// Appends the ranges of every bar played in `movement`, the movement with
/// index `movement_index`, numbered on from `*current_bar_number`.
fn build_movement_ranges(
    bar_ranges: &mut Vec<((usize, usize), BarReferenceInfo)>,
    current_bar_number: &mut usize,
    movement: &Movement,
    movement_index: usize,
    Ghost(c): Ghost<CompositionView>,
    Ghost(t): Ghost<Seq<BarReferenceInfo>>,
)
    requires
        movement_index < c.movements.len(),
        c.movements[movement_index as int] == movement@,
        ranges_hold(old(bar_ranges)@, t),
        *old(current_bar_number) == t.len() + 1,
        t.len() + performance(movement@).len() < usize::MAX,
        forall|i: int| 0 <= i < t.len() ==> info_valid(c, #[trigger] t[i]),
    ensures
        ranges_hold(final(bar_ranges)@, t + infos_of(performance(movement@), movement_index as int)),
        *final(current_bar_number) == t.len() + performance(movement@).len() + 1,
        forall|i: int|
            0 <= i < (t + infos_of(performance(movement@), movement_index as int)).len()
                ==> info_valid(
                c,
                #[trigger] (t + infos_of(performance(movement@), movement_index as int))[i],
            ),
{
    let ghost m = movement@;
    let ghost mi = movement_index as int;
    let mut s: usize = 0;
    while s < movement.sections.len()
        invariant
            m == movement@,
            mi == movement_index,
            movement_index < c.movements.len(),
            c.movements[mi] == m,
            s <= m.sections.len(),
            ranges_hold(bar_ranges@, t + infos_of(sections_upto(m, s as int), mi)),
            *current_bar_number == t.len() + sections_upto(m, s as int).len() + 1,
            t.len() + performance(m).len() < usize::MAX,
            forall|i: int|
                0 <= i < (t + infos_of(sections_upto(m, s as int), mi)).len() ==> info_valid(
                    c,
                    #[trigger] (t + infos_of(sections_upto(m, s as int), mi))[i],
                ),
        decreases movement.sections.len() - s,
    {
        proof {
            lemma_sections_grow(m, s + 1, m.sections.len() as int);
        }
        let section = &movement.sections[s];
        assert(m.sections[s as int] == section@);
        let ghost prefix = sections_upto(m, s as int);
        let ghost base = base_block(m, s as int);
        let ghost nreps = section@.repetitions.len() as int;
        proof {
            lemma_repetitions_grow(m, s as int, 0, nreps);
            lemma_infos_concat(prefix, base, mi);
        }
        if !section.bars.is_empty() {
            push_ranges(
                bar_ranges,
                current_bar_number,
                section.bars.len(),
                movement_index,
                s,
                None,
                None,
                false,
                Ghost(c),
                Ghost(t + infos_of(prefix, mi)),
                Ghost(infos_of(base, mi)),
            );
        } else {
            assert(infos_of(base, mi) =~= Seq::<BarReferenceInfo>::empty());
        }
        assert(t + infos_of(prefix, mi) + infos_of(base, mi) =~= t + infos_of(prefix + base, mi));
        let mut r: usize = 0;
        while r < section.repetitions.len()
            invariant
                m == movement@,
                mi == movement_index,
                movement_index < c.movements.len(),
                c.movements[mi] == m,
                s < m.sections.len(),
                section@ == m.sections[s as int],
                nreps == section@.repetitions.len(),
                r <= nreps,
                prefix == sections_upto(m, s as int),
                base == base_block(m, s as int),
                ranges_hold(
                    bar_ranges@,
                    t + infos_of(prefix + base + repetitions_upto(m, s as int, r as int), mi),
                ),
                *current_bar_number == t.len() + (prefix + base + repetitions_upto(
                    m,
                    s as int,
                    r as int,
                )).len() + 1,
                t.len() + prefix.len() + base.len() + repetitions_upto(m, s as int, nreps).len()
                    < usize::MAX,
                forall|i: int|
                    0 <= i < (t + infos_of(
                        prefix + base + repetitions_upto(m, s as int, r as int),
                        mi,
                    )).len() ==> info_valid(
                        c,
                        #[trigger] (t + infos_of(
                            prefix + base + repetitions_upto(m, s as int, r as int),
                            mi,
                        ))[i],
                    ),
            decreases section.repetitions.len() - r,
        {
            proof {
                lemma_repetitions_grow(m, s as int, r + 1, nreps);
            }
            let repetition = &section.repetitions[r];
            assert(m.sections[s as int].repetitions[r as int] == repetition@);
            let ghost before = prefix + base + repetitions_upto(m, s as int, r as int);
            let ghost num = repetition@.num_repetitions as int;
            let mut k: usize = 0;
            while k < repetition.num_repetitions
                invariant
                    m == movement@,
                    mi == movement_index,
                    movement_index < c.movements.len(),
                    c.movements[mi] == m,
                    s < m.sections.len(),
                    r < m.sections[s as int].repetitions.len(),
                    num == m.sections[s as int].repetitions[r as int].num_repetitions,
                    repetition@ == m.sections[s as int].repetitions[r as int],
                    k <= num,
                    ranges_hold(
                        bar_ranges@,
                        t + infos_of(before + passes(m, s as int, r as int, k as int), mi),
                    ),
                    *current_bar_number == t.len() + (before + passes(
                        m,
                        s as int,
                        r as int,
                        k as int,
                    )).len() + 1,
                    t.len() + before.len() + passes(m, s as int, r as int, num).len() < usize::MAX,
                    forall|i: int|
                        0 <= i < (t + infos_of(before + passes(m, s as int, r as int, k as int), mi)).len()
                            ==> info_valid(
                            c,
                            #[trigger] (t + infos_of(
                                before + passes(m, s as int, r as int, k as int),
                                mi,
                            ))[i],
                        ),
                decreases repetition.num_repetitions - k,
            {
                proof {
                    lemma_passes_grow(m, s as int, r as int, k + 1, num);
                }
                let ghost done = before + passes(m, s as int, r as int, k as int);
                let ghost pass = one_pass(m, s as int, r as int);
                proof {
                    lemma_infos_concat(done, pass, mi);
                }
                push_pass_ranges(
                    bar_ranges,
                    current_bar_number,
                    movement,
                    movement_index,
                    s,
                    r,
                    Ghost(c),
                    Ghost(t + infos_of(done, mi)),
                );
                assert(done + pass =~= before + passes(m, s as int, r as int, k + 1));
                assert(t + infos_of(done, mi) + infos_of(pass, mi) =~= t + infos_of(
                    before + passes(m, s as int, r as int, k + 1),
                    mi,
                ));
                k = k + 1;
            }
            assert(before + passes(m, s as int, r as int, num) =~= prefix + base
                + repetitions_upto(m, s as int, r + 1));
            r = r + 1;
        }
        assert(prefix + base + repetitions_upto(m, s as int, nreps) =~= sections_upto(m, s + 1));
        s = s + 1;
    }
}


/// The lookup entry of a bar addresses the bar that is played there: the
/// entry of bar `bars_in_movements(c, mi) + j + 1` names movement `mi`,
/// and its section, repetition and index within the section (or within
/// the ending) point to the bar that position `j` of the movement's
/// performance plays, equal to it in all but its number.
pub proof fn lemma_lookup_addresses_played_bar(c: CompositionView, mi: int, j: int)
    requires
        0 <= mi < c.movements.len(),
        c.movements.len() <= usize::MAX,
        counts_fit(c.movements[mi]),
        0 <= j < performance(c.movements[mi]).len(),
    ensures
        ({
            let info = composition_infos(c)[bars_in_movements(c, mi) + j];
            let m = c.movements[info.movement_index as int];
            let x = performance(c.movements[mi])[j];
            &&& info.movement_index == mi
            &&& info.section_index < m.sections.len()
            &&& if info.is_individual_ending {
                &&& info.repetition_index is Some
                &&& info.repetition_index->0 < m.sections[info.section_index as int].repetitions.len()
                &&& m.sections[info.section_index as int].repetitions[info.repetition_index->0 as int].individual_ending_pattern
                    matches Some(p)
                &&& info.bar_index_in_section < p.len()
                &&& same_bar_but_number(x.bar, p[info.bar_index_in_section as int])
            } else {
                &&& info.bar_index_in_section < m.sections[info.section_index as int].bars.len()
                &&& same_bar_but_number(
                    x.bar,
                    m.sections[info.section_index as int].bars[info.bar_index_in_section as int],
                )
            }
        }),
{
    lemma_lookup_matches_performance(c, mi, j);
    lemma_performed_bars_addressed(c.movements[mi], j);
}

/// The objects a bar belongs to, with its reference information.
#[derive(Debug)]
pub struct BarReferences<'a> {
    pub movement: &'a Movement,
    pub section: &'a Section,
    pub repetition: Option<&'a Repetition>,
    pub movement_index: usize,
    pub section_index: usize,
    pub repetition_index: Option<usize>,
    pub is_individual_ending: bool,
    pub bar_index_in_section: usize,
}

/// Lookup of the bars of a composition by their 1-based number in the
/// performance of the whole composition.
pub struct BarReference<'a> {
    composition: &'a Composition,
    /// One single-bar range per bar, in order.
    bar_ranges: Vec<((usize, usize), BarReferenceInfo)>,
}

impl<'a> BarReference<'a> {
    /// The reference information held for each bar, in order.
    pub closed spec fn infos(self) -> Seq<BarReferenceInfo> {
        self.bar_ranges@.map_values(|e: ((usize, usize), BarReferenceInfo)| e.1)
    }

    /// The composition looked into.
    pub closed spec fn composition_view(self) -> CompositionView {
        self.composition@
    }

    #[verifier::type_invariant]
    closed spec fn well_formed(self) -> bool {
        &&& ranges_hold(self.bar_ranges@, composition_infos(self.composition@))
        &&& forall|i: int|
            0 <= i < composition_infos(self.composition@).len() ==> info_valid(
                self.composition@,
                #[trigger] composition_infos(self.composition@)[i],
            )
        &&& composition_bar_total(self.composition@) < usize::MAX
    }

    /// The bar lookup of `composition`.
    pub fn new(composition: &'a Composition) -> (r: Self)
        requires
            composition_bar_total(composition@) < usize::MAX,
        ensures
            r.composition_view() == composition@,
            r.infos() == composition_infos(composition@),
    {
        let ghost c = composition@;
        let mut bar_ranges: Vec<((usize, usize), BarReferenceInfo)> = Vec::new();
        let mut current_bar_number: usize = 1;
        let mut mi: usize = 0;
        while mi < composition.movements.len()
            invariant
                c == composition@,
                mi <= c.movements.len(),
                ranges_hold(bar_ranges@, infos_upto(c, mi as int)),
                current_bar_number == infos_upto(c, mi as int).len() + 1,
                composition_bar_total(c) < usize::MAX,
                forall|i: int|
                    0 <= i < infos_upto(c, mi as int).len() ==> info_valid(
                        c,
                        #[trigger] infos_upto(c, mi as int)[i],
                    ),
            decreases composition.movements.len() - mi,
        {
            proof {
                lemma_movements_grow(c, mi + 1, c.movements.len() as int);
                lemma_infos_len(c, mi as int);
            }
            assert(c.movements[mi as int] == composition.movements@[mi as int]@);
            build_movement_ranges(
                &mut bar_ranges,
                &mut current_bar_number,
                &composition.movements[mi],
                mi,
                Ghost(c),
                Ghost(infos_upto(c, mi as int)),
            );
            mi = mi + 1;
        }
        let r = BarReference { composition, bar_ranges };
        assert(r.infos() =~= composition_infos(c));
        r
    }

    /// The reference information of bar `bar_number`, if the composition
    /// has such a bar.
    fn find_bar_reference_info(&self, bar_number: usize) -> (r: Option<&BarReferenceInfo>)
        ensures
            match r {
                Some(info) => 1 <= bar_number <= self.infos().len() && *info
                    == self.infos()[bar_number - 1],
                None => !(1 <= bar_number <= self.infos().len()),
            },
    {
        proof {
            use_type_invariant(self);
        }
        if bar_number >= 1 && bar_number <= self.bar_ranges.len() {
            let entry = &self.bar_ranges[bar_number - 1];
            assert(entry.0 == (bar_number, bar_number));
            Some(&entry.1)
        } else {
            None
        }
    }

    /// The movement, section and repetition that bar `bar_number` of the
    /// performance belongs to, with its reference information; `None` where
    /// the composition has no such bar.
    pub fn get_bar_objects(&self, bar_number: usize) -> (r: Option<BarReferences<'a>>)
        ensures
            self.infos() == composition_infos(self.composition_view()),
            match r {
                Some(refs) => {
                    let c = self.composition_view();
                    let info = self.infos()[bar_number - 1];
                    let m = c.movements[info.movement_index as int];
                    &&& 1 <= bar_number <= self.infos().len()
                    &&& info_valid(c, info)
                    &&& refs.movement_index == info.movement_index
                    &&& refs.section_index == info.section_index
                    &&& refs.repetition_index == info.repetition_index
                    &&& refs.is_individual_ending == info.is_individual_ending
                    &&& refs.bar_index_in_section == info.bar_index_in_section
                    &&& refs.movement@ == m
                    &&& refs.section@ == m.sections[info.section_index as int]
                    &&& match refs.repetition {
                        Some(rep) => info.repetition_index is Some
                            && info.repetition_section_index is Some
                            && rep@ == m.sections[info.repetition_section_index->0 as int].repetitions[info.repetition_index->0 as int],
                        None => info.repetition_index is None,
                    }
                },
                None => !(1 <= bar_number <= self.infos().len()),
            },
    {
        proof {
            use_type_invariant(self);
        }
        let ref_info = match self.find_bar_reference_info(bar_number) {
            Some(info) => info,
            None => {
                return None;
            },
        };
        let ghost c = self.composition@;
        assert(info_valid(c, composition_infos(c)[bar_number - 1]));
        let movement = &self.composition.movements[ref_info.movement_index];
        assert(c.movements[ref_info.movement_index as int] == movement@);
        let section = &movement.sections[ref_info.section_index];
        assert(movement@.sections[ref_info.section_index as int] == section@);
        let repetition = match ref_info.repetition_index {
            Some(rep_idx) => match ref_info.repetition_section_index {
                Some(rep_section_idx) => {
                    let rep_section = &movement.sections[rep_section_idx];
                    assert(movement@.sections[rep_section_idx as int] == rep_section@);
                    let rep = &rep_section.repetitions[rep_idx];
                    assert(rep_section@.repetitions[rep_idx as int] == rep@);
                    Some(rep)
                },
                None => None,
            },
            None => None,
        };
        Some(
            BarReferences {
                movement,
                section,
                repetition,
                movement_index: ref_info.movement_index,
                section_index: ref_info.section_index,
                repetition_index: ref_info.repetition_index,
                is_individual_ending: ref_info.is_individual_ending,
                bar_index_in_section: ref_info.bar_index_in_section,
            },
        )
    }

    /// Whether the composition has a bar with number `bar_number`.
    pub fn contains_bar(&self, bar_number: usize) -> (b: bool)
        ensures
            b == (1 <= bar_number <= self.infos().len()),
    {
        self.find_bar_reference_info(bar_number).is_some()
    }

    /// Every range of bar numbers, in order: `(1, 1), (2, 2), ...`, one per bar.
    pub fn get_all_ranges(&self) -> (r: Vec<(usize, usize)>)
        ensures
            r@.len() == self.infos().len(),
            forall|i: int| 0 <= i < r@.len() ==> #[trigger] r@[i] == ((i + 1) as usize, (i + 1) as usize),
    {
        proof {
            use_type_invariant(self);
        }
        let mut r: Vec<(usize, usize)> = Vec::new();
        let mut i: usize = 0;
        while i < self.bar_ranges.len()
            invariant
                i <= self.bar_ranges@.len(),
                r@.len() == i,
                ranges_hold(self.bar_ranges@, composition_infos(self.composition@)),
                forall|j: int| 0 <= j < i ==> #[trigger] r@[j] == ((j + 1) as usize, (j + 1) as usize),
            decreases self.bar_ranges.len() - i,
        {
            r.push(self.bar_ranges[i].0);
            i = i + 1;
        }
        r
    }

    /// The number of bars in the performance of the composition.
    pub fn total_bars(&self) -> (n: usize)
        ensures
            n == composition_bar_total(self.composition_view()),
            n == self.infos().len(),
    {
        proof {
            use_type_invariant(self);
            lemma_infos_len(self.composition@, self.composition@.movements.len() as int);
        }
        self.composition.total_bar_count()
    }

    /// The composition looked into.
    pub fn composition(&self) -> (c: &Composition)
        ensures
            c@ == self.composition_view(),
    {
        self.composition
    }
}

} // verus!
