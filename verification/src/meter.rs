//! The beat structure of bars: which beat groups a bar has, and the beats
//! that a sequence of bars produces, each classified as the bar's first beat
//! (major), the first beat of a later group (medium) or any other (minor).
use vstd::prelude::*;
use crate::beats::{BeatTable, MetricKey, MetricKeyView};

verus! {

/// The denominators a bar may have (0 for a bar measured in seconds).
pub open spec fn allowed_denominator(denom: i32) -> bool {
    denom == 0 || denom == 1 || denom == 2 || denom == 4 || denom == 8 || denom == 16 || denom == 32
}

/// Whether `denom` is one of 0, 1, 2, 4, 8, 16, 32.
pub fn is_allowed_denominator(denom: i32) -> (b: bool)
    ensures
        b == allowed_denominator(denom),
{
    denom == 0 || denom == 1 || denom == 2 || denom == 4 || denom == 8 || denom == 16 || denom == 32
}

/// Whether a bar with this numerator and denominator is measured by its time
/// signature (both positive) rather than in seconds.
pub fn has_signature(nom: i32, denom: i32) -> (b: bool)
    ensures
        b == (denom > 0 && nom > 0),
{
    (denom > 0) && (nom > 0)
}

/// The sum of a list of integers.
pub open spec fn int_sum(s: Seq<i32>) -> int
    decreases s.len(),
{
    if s.len() == 0 {
        0
    } else {
        int_sum(s.drop_last()) + s.last()
    }
}

/// Every partial sum of `v`, from the left, fits an `i32`.
pub open spec fn sums_fit(v: Seq<i32>) -> bool {
    forall|k: int| 0 <= k <= v.len() ==> i32::MIN <= #[trigger] int_sum(v.take(k)) <= i32::MAX
}

/// The sum of beat groups `v`, added from the left as `i32` values; `None`
/// where a partial sum leaves `i32`.
pub fn checked_beat_sum(v: &Vec<i32>) -> (r: Option<i32>)
    ensures
        match r {
            Some(s) => sums_fit(v@) && s == int_sum(v@),
            None => !sums_fit(v@),
        },
{
    let mut sum: i64 = 0;
    let mut i: usize = 0;
    while i < v.len()
        invariant
            i <= v@.len(),
            sum == int_sum(v@.take(i as int)),
            forall|k: int| 0 <= k <= i ==> i32::MIN <= #[trigger] int_sum(v@.take(k)) <= i32::MAX,
        decreases v.len() - i,
    {
        assert(v@.take(i + 1).drop_last() =~= v@.take(i as int));
        sum = sum + v[i] as i64;
        assert(int_sum(v@.take(i + 1)) == sum);
        if sum < i32::MIN as i64 || sum > i32::MAX as i64 {
            assert(!(i32::MIN <= int_sum(v@.take(i + 1)) <= i32::MAX));
            return None;
        }
        i = i + 1;
    }
    assert(v@.take(v@.len() as int) =~= v@);
    Some(sum as i32)
}

/// The beat groups of a bar with a time signature `nom/denom`: the groups
/// given, if any; else the default of the table for `(nom, denom)`; else
/// `nom` groups of one.
pub open spec fn resolved_groups(
    nom: i32,
    denom: i32,
    given: Option<Seq<i32>>,
    defaults: Map<MetricKeyView, Seq<i32>>,
) -> Seq<i32> {
    match given {
        Some(g) if g.len() > 0 => g,
        _ => if defaults.contains_key(MetricKeyView::Standard(nom, denom)) {
            defaults[MetricKeyView::Standard(nom, denom)]
        } else {
            Seq::new(nom as nat, |i: int| 1i32)
        },
    }
}

/// The beat groups of a bar with time signature `nom/denom` (see
/// [`resolved_groups`]). Given groups must add up to `nom`.
pub fn signature_beats(nom: i32, denom: i32, beats: Option<Vec<i32>>, defaults: &BeatTable) -> (r:
    Vec<i32>)
    requires
        nom > 0,
        denom > 0,
        match beats {
            Some(b) => b@.len() > 0 ==> int_sum(b@) == nom,
            None => true,
        },
    ensures
        r@ == resolved_groups(
            nom,
            denom,
            match beats {
                Some(b) => Some(b@),
                None => None,
            },
            defaults@,
        ),
{
    match beats {
        Some(b) if b.len() > 0 => b,
        _ => {
            let key = MetricKey::Standard((nom, denom));
            match defaults.get(&key) {
                Some(d) => {
                    let r = d.clone();
                    assert(r@ =~= d@);
                    r
                },
                None => {
                    let mut r: Vec<i32> = Vec::new();
                    let mut i: i32 = 0;
                    while i < nom
                        invariant
                            0 <= i <= nom,
                            r@.len() == i,
                            forall|j: int| 0 <= j < i ==> r@[j] == 1i32,
                        decreases nom - i,
                    {
                        r.push(1);
                        i = i + 1;
                    }
                    assert(r@ =~= Seq::new(nom as nat, |i: int| 1i32));
                    r
                },
            }
        },
    }
}

/// The class of a beat.
#[derive(Debug, Clone, Copy, PartialEq, Eq, Hash, Structural)]
pub enum BeatType {
    /// The first beat of a bar.
    Major,
    /// The first beat of a beat group after the first.
    Medium,
    /// Any other beat.
    Minor,
}

/// One beat of a sequence of bars.
#[derive(Debug, Clone, Copy, PartialEq, Eq, Structural)]
pub struct BeatSlot {
    /// Index of the bar in the whole sequence.
    pub bar_index: usize,
    /// Index of the beat group within the bar.
    pub beat_in_bar: usize,
    /// Position of the beat within the bar, counted over all groups.
    pub subbeat_in_beat: usize,
    pub nom: i32,
    pub denom: i32,
    pub beat_type: BeatType,
}

/// A bar's meter: its signature and its beat groups.
#[derive(Debug)]
pub struct BarMeter {
    pub nom: i32,
    pub denom: i32,
    pub groups: Vec<i32>,
}

/// The number of beats a group of size `g` has (none where `g <= 0`).
pub open spec fn group_len(g: i32) -> nat {
    if g > 0 {
        g as nat
    } else {
        0
    }
}

/// The beats of the groups `0..k` of a bar.
pub open spec fn groups_upto(groups: Seq<i32>, k: int) -> nat
    decreases k,
{
    if k <= 0 {
        0
    } else {
        groups_upto(groups, k - 1) + group_len(groups[k - 1])
    }
}

/// The beats of the groups `0..k` of bar `bar_index`, in order.
pub open spec fn bar_slots_upto(
    bar_index: int,
    nom: i32,
    denom: i32,
    groups: Seq<i32>,
    k: int,
) -> Seq<BeatSlot>
    decreases k,
{
    if k <= 0 {
        seq![]
    } else {
        let before = bar_slots_upto(bar_index, nom, denom, groups, k - 1);
        before + Seq::new(
            group_len(groups[k - 1]),
            |n: int|
                BeatSlot {
                    bar_index: bar_index as usize,
                    beat_in_bar: (k - 1) as usize,
                    subbeat_in_beat: (before.len() + n) as usize,
                    nom,
                    denom,
                    beat_type: if before.len() + n == 0 {
                        BeatType::Major
                    } else if n == 0 && k - 1 > 0 {
                        BeatType::Medium
                    } else {
                        BeatType::Minor
                    },
                },
        )
    }
}

/// The beats of one bar.
pub open spec fn bar_slots(bar_index: int, m: (i32, i32, Seq<i32>)) -> Seq<BeatSlot> {
    bar_slots_upto(bar_index, m.0, m.1, m.2, m.2.len() as int)
}

/// The view of a bar's meter.
pub open spec fn meter_view(m: BarMeter) -> (i32, i32, Seq<i32>) {
    (m.nom, m.denom, m.groups@)
}

/// The beats of the bars `0..n`, in order.
pub open spec fn slots_upto(bars: Seq<(i32, i32, Seq<i32>)>, n: int) -> Seq<BeatSlot>
    decreases n,
{
    if n <= 0 {
        seq![]
    } else {
        slots_upto(bars, n - 1) + bar_slots(n - 1, bars[n - 1])
    }
}


/// More groups of a bar give at least as many beats.
proof fn lemma_bar_slots_grow(bi: int, nom: i32, denom: i32, groups: Seq<i32>, a: int, b: int)
    requires
        a <= b,
    ensures
        bar_slots_upto(bi, nom, denom, groups, a).len() <= bar_slots_upto(bi, nom, denom, groups, b).len(),
    decreases b - a,
{
    if a < b {
        lemma_bar_slots_grow(bi, nom, denom, groups, a, b - 1);
    }
}

/// More bars give at least as many beats.
proof fn lemma_slots_grow(bars: Seq<(i32, i32, Seq<i32>)>, a: int, b: int)
    requires
        a <= b,
    ensures
        slots_upto(bars, a).len() <= slots_upto(bars, b).len(),
    decreases b - a,
{
    if a < b {
        lemma_slots_grow(bars, a, b - 1);
    }
}

/// Within a bar, beat `i` sits at position `i`, belongs to that bar, and is
/// major exactly when it is the bar's first beat.
pub proof fn lemma_one_major_per_bar(bi: int, nom: i32, denom: i32, groups: Seq<i32>, k: int, i: int)
    requires
        0 <= i < bar_slots_upto(bi, nom, denom, groups, k).len(),
        bar_slots_upto(bi, nom, denom, groups, k).len() <= usize::MAX,
        0 <= bi <= usize::MAX,
    ensures
        bar_slots_upto(bi, nom, denom, groups, k)[i].subbeat_in_beat == i,
        bar_slots_upto(bi, nom, denom, groups, k)[i].bar_index == bi,
        (bar_slots_upto(bi, nom, denom, groups, k)[i].beat_type == BeatType::Major) == (i == 0),
    decreases k,
{
    if k > 0 {
        let before = bar_slots_upto(bi, nom, denom, groups, k - 1);
        if i < before.len() {
            lemma_one_major_per_bar(bi, nom, denom, groups, k - 1, i);
        }
    }
}

/// The class a beat gets from its place: the bar's first beat is major,
/// the first beat of any later group medium, every other beat minor.
/// `position` counts the bar's beats from 0, `note` the group's beats.
pub open spec fn class_at(position: int, note: int) -> BeatType {
    if position == 0 {
        BeatType::Major
    } else if note == 0 {
        BeatType::Medium
    } else {
        BeatType::Minor
    }
}

proof fn lemma_bar_slots_len(bi: int, nom: i32, denom: i32, groups: Seq<i32>, k: int)
    requires
        0 <= k <= groups.len(),
    ensures
        bar_slots_upto(bi, nom, denom, groups, k).len() == groups_upto(groups, k),
    decreases k,
{
    if k > 0 {
        lemma_bar_slots_len(bi, nom, denom, groups, k - 1);
    }
}

proof fn lemma_bar_slots_prefix(bi: int, nom: i32, denom: i32, groups: Seq<i32>, a: int, b: int, p: int)
    requires
        0 <= a <= b <= groups.len(),
        0 <= p < bar_slots_upto(bi, nom, denom, groups, a).len(),
    ensures
        bar_slots_upto(bi, nom, denom, groups, b)[p] == bar_slots_upto(bi, nom, denom, groups, a)[p],
    decreases b - a,
{
    if a < b {
        lemma_bar_slots_grow(bi, nom, denom, groups, a, b - 1);
        lemma_bar_slots_prefix(bi, nom, denom, groups, a, b - 1, p);
    }
}

/// The beats of one bar, by group: beat `n` of group `g` stands at the
/// bar's position `p` = (beats of the groups before `g`) + `n`; it carries
/// the bar, the group and that position, and is major where `p` is 0,
/// medium where it opens a later group, minor otherwise. A bar has as many
/// beats as its positive group sizes add up to.
pub proof fn lemma_beat_classes_in_bar(bi: int, nom: i32, denom: i32, groups: Seq<i32>, g: int, n: int)
    requires
        0 <= g < groups.len(),
        0 <= n < groups[g],
    ensures
        bar_slots(bi, (nom, denom, groups)).len() == groups_upto(groups, groups.len() as int),
        groups_upto(groups, g) + n < bar_slots(bi, (nom, denom, groups)).len(),
        bar_slots(bi, (nom, denom, groups))[groups_upto(groups, g) + n] == (BeatSlot {
            bar_index: bi as usize,
            beat_in_bar: g as usize,
            subbeat_in_beat: (groups_upto(groups, g) + n) as usize,
            nom,
            denom,
            beat_type: class_at(groups_upto(groups, g) + n, n),
        }),
{
    let k = groups.len() as int;
    lemma_bar_slots_len(bi, nom, denom, groups, k);
    lemma_bar_slots_len(bi, nom, denom, groups, g);
    lemma_bar_slots_len(bi, nom, denom, groups, g + 1);
    let p = groups_upto(groups, g) + n;
    lemma_bar_slots_grow(bi, nom, denom, groups, g + 1, k);
    lemma_bar_slots_prefix(bi, nom, denom, groups, g + 1, k, p);
    if n == 0 && p != 0 {
        assert(g != 0);
    }
}

proof fn lemma_slots_prefix(bars: Seq<(i32, i32, Seq<i32>)>, a: int, b: int, p: int)
    requires
        0 <= a <= b,
        0 <= p < slots_upto(bars, a).len(),
    ensures
        slots_upto(bars, b)[p] == slots_upto(bars, a)[p],
    decreases b - a,
{
    if a < b {
        lemma_slots_grow(bars, a, b - 1);
        lemma_slots_prefix(bars, a, b - 1, p);
    }
}

/// The beats of a sequence of bars, by bar and group: beat `n` of group `g`
/// of bar `b` comes after the beats of the earlier bars, at the bar's
/// position `p` = (beats of the bar's groups before `g`) + `n`, and is
/// major where `p` is 0, medium where it opens a later group, minor
/// otherwise.
pub proof fn lemma_beat_classes(bars: Seq<(i32, i32, Seq<i32>)>, b: int, g: int, n: int)
    requires
        0 <= b < bars.len(),
        0 <= g < bars[b].2.len(),
        0 <= n < bars[b].2[g],
    ensures
        slots_upto(bars, b).len() + groups_upto(bars[b].2, g) + n < slots_upto(
            bars,
            bars.len() as int,
        ).len(),
        slots_upto(bars, bars.len() as int)[slots_upto(bars, b).len() + groups_upto(bars[b].2, g)
            + n] == (BeatSlot {
            bar_index: b as usize,
            beat_in_bar: g as usize,
            subbeat_in_beat: (groups_upto(bars[b].2, g) + n) as usize,
            nom: bars[b].0,
            denom: bars[b].1,
            beat_type: class_at(groups_upto(bars[b].2, g) + n, n),
        }),
{
    let m = bars[b];
    lemma_beat_classes_in_bar(b, m.0, m.1, m.2, g, n);
    let before = slots_upto(bars, b);
    let p = before.len() + groups_upto(m.2, g) + n;
    assert(slots_upto(bars, b + 1) == before + bar_slots(b, m));
    assert(slots_upto(bars, b + 1)[p] == bar_slots(b, m)[groups_upto(m.2, g) + n]);
    lemma_slots_grow(bars, b + 1, bars.len() as int);
    lemma_slots_prefix(bars, b + 1, bars.len() as int, p);
}

/// The number of major beats in `s`.
pub open spec fn major_count(s: Seq<BeatSlot>) -> nat
    decreases s.len(),
{
    if s.len() == 0 {
        0
    } else {
        major_count(s.drop_last()) + if s.last().beat_type == BeatType::Major {
            1nat
        } else {
            0nat
        }
    }
}

/// The number of bars among `0..n` that have at least one beat.
pub open spec fn bars_with_beats(bars: Seq<(i32, i32, Seq<i32>)>, n: int) -> nat
    decreases n,
{
    if n <= 0 {
        0
    } else {
        bars_with_beats(bars, n - 1) + if bar_slots(n - 1, bars[n - 1]).len() > 0 {
            1nat
        } else {
            0nat
        }
    }
}

proof fn lemma_major_count_concat(a: Seq<BeatSlot>, b: Seq<BeatSlot>)
    ensures
        major_count(a + b) == major_count(a) + major_count(b),
    decreases b.len(),
{
    if b.len() > 0 {
        lemma_major_count_concat(a, b.drop_last());
        assert((a + b).drop_last() =~= a + b.drop_last());
    }
}

proof fn lemma_major_count_first_only(s: Seq<BeatSlot>)
    requires
        forall|i: int| 0 <= i < s.len() ==> ((#[trigger] s[i]).beat_type == BeatType::Major) == (i == 0),
    ensures
        major_count(s) == if s.len() > 0 {
            1nat
        } else {
            0nat
        },
    decreases s.len(),
{
    if s.len() > 0 {
        let t = s.drop_last();
        assert forall|i: int| 0 <= i < t.len() implies ((#[trigger] t[i]).beat_type == BeatType::Major)
            == (i == 0) by {
            assert(t[i] == s[i]);
        }
        lemma_major_count_first_only(t);
    }
}

/// A sequence of bars has exactly one major beat per bar that has beats:
/// the first beat of each such bar.
pub proof fn lemma_major_beats_count_bars(bars: Seq<(i32, i32, Seq<i32>)>, n: int)
    requires
        0 <= n <= bars.len(),
        n <= usize::MAX,
        slots_upto(bars, n).len() <= usize::MAX,
    ensures
        major_count(slots_upto(bars, n)) == bars_with_beats(bars, n),
    decreases n,
{
    if n > 0 {
        lemma_slots_grow(bars, n - 1, n);
        lemma_major_beats_count_bars(bars, n - 1);
        let m = bars[n - 1];
        let one = bar_slots(n - 1, m);
        lemma_major_count_concat(slots_upto(bars, n - 1), one);
        assert forall|i: int| 0 <= i < one.len() implies ((#[trigger] one[i]).beat_type
            == BeatType::Major) == (i == 0) by {
            lemma_one_major_per_bar(n - 1, m.0, m.1, m.2, m.2.len() as int, i);
        }
        lemma_major_count_first_only(one);
    }
}

/// Appends the beats of bar `bar_index` to `out`.
fn push_bar_slots(out: &mut Vec<BeatSlot>, bar: &BarMeter, bar_index: usize, Ghost(t): Ghost<Seq<BeatSlot>>)
    requires
        old(out)@ == t,
        t.len() + bar_slots(bar_index as int, meter_view(*bar)).len() < usize::MAX,
    ensures
        final(out)@ == t + bar_slots(bar_index as int, meter_view(*bar)),
{
    let ghost groups = bar.groups@;
    let ghost total = bar_slots(bar_index as int, meter_view(*bar)).len();
    let mut is_first_beat_in_bar = true;
    let mut absolute_beat_in_bar: usize = 0;
    let mut group_index: usize = 0;
    while group_index < bar.groups.len()
        invariant
            groups == bar.groups@,
            group_index <= groups.len(),
            total == bar_slots_upto(bar_index as int, bar.nom, bar.denom, groups, groups.len() as int).len(),
            t.len() + total < usize::MAX,
            out@ == t + bar_slots_upto(bar_index as int, bar.nom, bar.denom, groups, group_index as int),
            absolute_beat_in_bar == bar_slots_upto(bar_index as int, bar.nom, bar.denom, groups, group_index as int).len(),
            is_first_beat_in_bar == (absolute_beat_in_bar == 0),
        decreases bar.groups.len() - group_index,
    {
        proof {
            lemma_bar_slots_grow(bar_index as int, bar.nom, bar.denom, groups, group_index + 1, groups.len() as int);
        }
        let group_size = bar.groups[group_index];
        let ghost before = bar_slots_upto(bar_index as int, bar.nom, bar.denom, groups, group_index as int);
        let ghost full = bar_slots_upto(bar_index as int, bar.nom, bar.denom, groups, group_index + 1);
        assert(full.len() == before.len() + group_len(group_size));
        let mut note_in_group: i32 = 0;
        while note_in_group < group_size
            invariant
                groups == bar.groups@,
                group_index < groups.len(),
                group_size == groups[group_index as int],
                before == bar_slots_upto(bar_index as int, bar.nom, bar.denom, groups, group_index as int),
                full == bar_slots_upto(bar_index as int, bar.nom, bar.denom, groups, group_index + 1),
                full.len() == before.len() + group_len(group_size),
                0 <= note_in_group,
                group_size > 0 ==> note_in_group <= group_size,
                group_size <= 0 ==> note_in_group == 0,
                t.len() + full.len() < usize::MAX,
                out@ == t + full.take(before.len() + note_in_group),
                absolute_beat_in_bar == before.len() + note_in_group,
                is_first_beat_in_bar == (absolute_beat_in_bar == 0),
            decreases group_size - note_in_group,
        {
            let beat_type = if is_first_beat_in_bar {
                BeatType::Major
            } else if note_in_group == 0 && group_index > 0 {
                BeatType::Medium
            } else {
                BeatType::Minor
            };
            let slot = BeatSlot {
                bar_index,
                beat_in_bar: group_index,
                subbeat_in_beat: absolute_beat_in_bar,
                nom: bar.nom,
                denom: bar.denom,
                beat_type,
            };
            assert(slot == full[before.len() + note_in_group]);
            out.push(slot);
            assert(full.take(before.len() + note_in_group + 1) =~= full.take(before.len() + note_in_group).push(slot));
            absolute_beat_in_bar = absolute_beat_in_bar + 1;
            is_first_beat_in_bar = false;
            note_in_group = note_in_group + 1;
        }
        assert(full.take(full.len() as int) =~= full);
        group_index = group_index + 1;
    }
}

/// The views of a list of bar meters.
pub open spec fn meters_view(bars: Seq<BarMeter>) -> Seq<(i32, i32, Seq<i32>)> {
    bars.map_values(|m: BarMeter| meter_view(m))
}

/// The beats of a sequence of bars, in order: for each bar, each group,
/// each beat of the group. The first beat of a bar is major, the first
/// beat of any later group medium, every other beat minor.
pub fn beat_slots(bars: &Vec<BarMeter>) -> (r: Vec<BeatSlot>)
    requires
        slots_upto(meters_view(bars@), bars@.len() as int).len() < usize::MAX,
    ensures
        r@ == slots_upto(meters_view(bars@), bars@.len() as int),
{
    let ghost bv = meters_view(bars@);
    let mut r: Vec<BeatSlot> = Vec::new();
    let mut i: usize = 0;
    while i < bars.len()
        invariant
            i <= bars@.len(),
            bv == meters_view(bars@),
            slots_upto(bv, bv.len() as int).len() < usize::MAX,
            r@ == slots_upto(bv, i as int),
        decreases bars.len() - i,
    {
        proof {
            lemma_slots_grow(bv, i + 1, bv.len() as int);
        }
        assert(bv[i as int] == meter_view(bars@[i as int]));
        let ghost before = r@;
        push_bar_slots(&mut r, &bars[i], i, Ghost(before));
        i = i + 1;
    }
    r
}

} // verus!
