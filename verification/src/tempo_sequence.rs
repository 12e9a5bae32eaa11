//! Repetitions of a tempo sequence: the YAML form names each as a range of
//! interval indices; in memory each interval carries a mark that says which
//! repetition it belongs to and where it stands in it.
use vstd::prelude::*;
use std::collections::HashSet;
use crate::beats::{same_values, BeatTable, MetricKey, MetricKeyView};

verus! {

broadcast use vstd::std_specs::hash::group_hash_axioms;

/// A repetition as the YAML form writes it: intervals
/// `start_interval_index..=end_interval_index`, played `num_reps` times.
#[derive(Debug, Clone, Copy, PartialEq, Eq, Structural)]
pub struct YamlRepetitionData {
    pub start_interval_index: usize,
    pub end_interval_index: usize,
    pub num_reps: usize,
}

/// Where an interval stands within a repetition: `repetition_id` counts the
/// repetitions from 1 and is 0 for an interval outside any repetition.
#[derive(Debug, Clone, Copy, PartialEq, Eq, Structural)]
pub struct RepetitionMark {
    pub repetition_id: usize,
    pub position_in_repetition: usize,
    pub total_intervals_in_repetition: usize,
}

/// The mark of an interval outside any repetition.
pub open spec fn unmarked() -> RepetitionMark {
    RepetitionMark { repetition_id: 0, position_in_repetition: 0, total_intervals_in_repetition: 0 }
}

/// Whether each repetition's range is in order and its length fits a `usize`.
pub open spec fn ranges_in_order(reps: Seq<YamlRepetitionData>) -> bool {
    forall|k: int|
        0 <= k < reps.len() ==> #[trigger] reps[k].start_interval_index
            <= reps[k].end_interval_index && reps[k].end_interval_index
            - reps[k].start_interval_index < usize::MAX
}

/// The mark of interval `i` once the first `n` repetitions of `reps` are
/// applied in order: the last of them whose range holds `i` decides.
pub open spec fn mark_after(reps: Seq<YamlRepetitionData>, n: int, i: int) -> RepetitionMark
    decreases n,
{
    if n <= 0 {
        unmarked()
    } else {
        let r = reps[n - 1];
        if r.start_interval_index <= i <= r.end_interval_index {
            RepetitionMark {
                repetition_id: n as usize,
                position_in_repetition: (i - r.start_interval_index) as usize,
                total_intervals_in_repetition: (r.end_interval_index - r.start_interval_index
                    + 1) as usize,
            }
        } else {
            mark_after(reps, n - 1, i)
        }
    }
}

/// The marks of `n` intervals under `reps`, applied in order.
pub open spec fn marks_of(n: int, reps: Seq<YamlRepetitionData>) -> Seq<RepetitionMark> {
    Seq::new(n as nat, |i: int| mark_after(reps, reps.len() as int, i))
}

/// Reads the repetitions of the YAML form of a tempo sequence.
pub struct TempoSequenceReader;

impl TempoSequenceReader {
    /// The marks of `interval_count` intervals under `repetitions`, applied
    /// in order; indices past the last interval are ignored.
    pub fn repetition_marks(interval_count: usize, repetitions: &Vec<YamlRepetitionData>) -> (marks:
        Vec<RepetitionMark>)
        requires
            ranges_in_order(repetitions@),
        ensures
            marks@ == marks_of(interval_count as int, repetitions@),
    {
        let mut marks: Vec<RepetitionMark> = Vec::new();
        let mut n: usize = 0;
        while n < interval_count
            invariant
                n <= interval_count,
                marks@.len() == n,
                forall|i: int| 0 <= i < n ==> #[trigger] marks@[i] == unmarked(),
            decreases interval_count - n,
        {
            marks.push(RepetitionMark {
                repetition_id: 0,
                position_in_repetition: 0,
                total_intervals_in_repetition: 0,
            });
            n += 1;
        }
        let mut k: usize = 0;
        while k < repetitions.len()
            invariant
                k <= repetitions@.len(),
                ranges_in_order(repetitions@),
                marks@.len() == interval_count,
                forall|i: int|
                    0 <= i < interval_count ==> #[trigger] marks@[i] == mark_after(
                        repetitions@,
                        k as int,
                        i,
                    ),
            decreases repetitions@.len() - k,
        {
            let rep = repetitions[k];
            assert(ranges_in_order(repetitions@) ==> rep.start_interval_index
                <= rep.end_interval_index);
            let repetition_id: usize = k + 1;
            let total: usize = rep.end_interval_index - rep.start_interval_index + 1;
            let mut i: usize = rep.start_interval_index;
            while i <= rep.end_interval_index && i < marks.len()
                invariant
                    rep == repetitions@[k as int],
                    k < repetitions@.len(),
                    repetition_id == k + 1,
                    total == rep.end_interval_index - rep.start_interval_index + 1,
                    rep.start_interval_index <= i,
                    i <= rep.end_interval_index + 1,
                    marks@.len() == interval_count,
                    forall|j: int|
                        0 <= j < interval_count ==> #[trigger] marks@[j] == if rep.start_interval_index
                            <= j < i {
                            mark_after(repetitions@, k + 1, j)
                        } else {
                            mark_after(repetitions@, k as int, j)
                        },
                decreases interval_count - i,
            {
                marks.set(
                    i,
                    RepetitionMark {
                        repetition_id,
                        position_in_repetition: i - rep.start_interval_index,
                        total_intervals_in_repetition: total,
                    },
                );
                i += 1;
            }
            k += 1;
        }
        assert(marks@ =~= marks_of(interval_count as int, repetitions@));
        marks
    }
}

/// Whether each marked interval's repetition starts at or before it and its
/// end index is in range.
pub open spec fn marks_well_formed(marks: Seq<RepetitionMark>) -> bool {
    forall|k: int|
        0 <= k < marks.len() && #[trigger] marks[k].repetition_id > 0 ==> {
            &&& marks[k].position_in_repetition <= k
            &&& 1 <= marks[k].total_intervals_in_repetition
            &&& k + marks[k].total_intervals_in_repetition <= usize::MAX
        }
}

/// How many times repetition `id` is met walking the marks from index `i`:
/// each time a mark of it is met, the walk jumps over the whole repetition.
pub open spec fn count_from(marks: Seq<RepetitionMark>, id: usize, i: int) -> nat
    decreases marks.len() - i,
{
    if i < 0 || i >= marks.len() {
        0
    } else if marks[i].repetition_id == id {
        let step: int = if marks[i].total_intervals_in_repetition >= 1 {
            marks[i].total_intervals_in_repetition as int
        } else {
            1
        };
        let next: int = if i + step > marks.len() {
            marks.len() as int
        } else {
            i + step
        };
        1 + count_from(marks, id, next)
    } else {
        count_from(marks, id, i + 1)
    }
}

/// Whether the mark at `i` is the first of its repetition.
pub open spec fn first_of_repetition(marks: Seq<RepetitionMark>, i: int) -> bool {
    &&& marks[i].repetition_id > 0
    &&& forall|j: int| 0 <= j < i ==> #[trigger] marks[j].repetition_id != marks[i].repetition_id
}

/// The repetition that the mark at `i` names, as the YAML form writes it.
pub open spec fn repetition_entry(marks: Seq<RepetitionMark>, i: int) -> YamlRepetitionData {
    let start = i - marks[i].position_in_repetition;
    YamlRepetitionData {
        start_interval_index: start as usize,
        end_interval_index: (start + marks[i].total_intervals_in_repetition - 1) as usize,
        num_reps: count_from(marks, marks[i].repetition_id, 0) as usize,
    }
}

/// The repetitions named by the first `n` marks, one per repetition, in the
/// order of their first marks.
pub open spec fn repetitions_upto(marks: Seq<RepetitionMark>, n: int) -> Seq<YamlRepetitionData>
    decreases n,
{
    if n <= 0 {
        Seq::empty()
    } else if first_of_repetition(marks, n - 1) {
        repetitions_upto(marks, n - 1).push(repetition_entry(marks, n - 1))
    } else {
        repetitions_upto(marks, n - 1)
    }
}

/// The beats that a bar's YAML entry carries: none where they are the
/// default grouping of its signature `nom/denom`.
pub open spec fn yaml_beats(
    nom: i32,
    denom: i32,
    beats: Seq<i32>,
    defaults: Map<MetricKeyView, Seq<i32>>,
) -> Option<Seq<i32>> {
    let key = MetricKeyView::Standard(nom, denom);
    if defaults.contains_key(key) && defaults[key] == beats {
        None
    } else {
        Some(beats)
    }
}

/// Writes the repetitions of a tempo sequence in its YAML form.
pub struct TempoSequenceWriter;

impl TempoSequenceWriter {
    /// The beats that the YAML entry of a bar with signature `nom/denom`
    /// and beat groups `beats` carries: none where they are the default.
    pub fn beats_for_yaml(nom: i32, denom: i32, beats: &Vec<i32>, defaults: &BeatTable) -> (r: Option<
        Vec<i32>,
    >)
        ensures
            match r {
                Some(b) => yaml_beats(nom, denom, beats@, defaults@) == Some(b@),
                None => yaml_beats(nom, denom, beats@, defaults@) is None,
            },
    {
        let key = MetricKey::Standard((nom, denom));
        match defaults.get(&key) {
            Some(default_beats) => {
                if same_values(beats, default_beats) {
                    return None;
                }
            },
            None => {},
        }
        Some(beats.clone())
    }

    /// The repetitions that `marks` name, one entry per repetition, in the
    /// order in which each is first met; each entry counts how many times
    /// its repetition is played.
    pub fn repetitions_from_marks(marks: &Vec<RepetitionMark>) -> (reps: Vec<YamlRepetitionData>)
        requires
            marks_well_formed(marks@),
        ensures
            reps@ == repetitions_upto(marks@, marks@.len() as int),
    {
        let mut repetitions: Vec<YamlRepetitionData> = Vec::new();
        let mut processed: HashSet<usize> = HashSet::new();
        let mut i: usize = 0;
        while i < marks.len()
            invariant
                i <= marks@.len(),
                marks_well_formed(marks@),
                repetitions@ == repetitions_upto(marks@, i as int),
                forall|id: usize|
                    #[trigger] processed@.contains(id) <==> (id > 0 && exists|j: int|
                        0 <= j < i && #[trigger] marks@[j].repetition_id == id),
            decreases marks@.len() - i,
        {
            let mark = marks[i];
            let seen = processed.contains(&mark.repetition_id);
            if mark.repetition_id > 0 && !seen {
                processed.insert(mark.repetition_id);
                assert(marks@[i as int].repetition_id > 0);
                let start_index: usize = i - mark.position_in_repetition;
                let end_index: usize = start_index + mark.total_intervals_in_repetition - 1;
                let num_reps = Self::count_repetitions(marks, mark.repetition_id);
                assert forall|j: int| 0 <= j < i implies #[trigger] marks@[j].repetition_id
                    != marks@[i as int].repetition_id by {
                    if marks@[j].repetition_id == mark.repetition_id {
                        assert(processed@.contains(mark.repetition_id));
                    }
                }
                repetitions.push(
                    YamlRepetitionData {
                        start_interval_index: start_index,
                        end_interval_index: end_index,
                        num_reps,
                    },
                );
            } else {
                if mark.repetition_id > 0 {
                    assert(!first_of_repetition(marks@, i as int));
                }
            }
            i += 1;
        }
        repetitions
    }

    /// How many times repetition `repetition_id` is played: a walk over the
    /// marks that counts each mark of it met and jumps over the repetition.
    fn count_repetitions(marks: &Vec<RepetitionMark>, repetition_id: usize) -> (count: usize)
        requires
            marks_well_formed(marks@),
            repetition_id > 0,
        ensures
            count == count_from(marks@, repetition_id, 0),
    {
        let mut count: usize = 0;
        let mut i: usize = 0;
        while i < marks.len()
            invariant
                marks_well_formed(marks@),
                repetition_id > 0,
                count + count_from(marks@, repetition_id, i as int) == count_from(
                    marks@,
                    repetition_id,
                    0,
                ),
                count <= i,
            decreases if i <= marks@.len() {
                marks@.len() - i
            } else {
                0
            },
        {
            let mark = marks[i];
            if mark.repetition_id == repetition_id {
                assert(marks@[i as int].repetition_id > 0);
                assert(count_from(marks@, repetition_id, i as int) == 1 + count_from(
                    marks@,
                    repetition_id,
                    i + mark.total_intervals_in_repetition,
                )) by {
                    if i + mark.total_intervals_in_repetition > marks@.len() {
                        assert(count_from(marks@, repetition_id, marks@.len() as int) == 0);
                    }
                }
                count += 1;
                i += mark.total_intervals_in_repetition;
            } else {
                i += 1;
            }
        }
        count
    }
}

/// Repetitions that lie within `n` intervals (a count that fits a
/// `usize`), each with its start at or before its end, each ending before
/// the next one starts.
pub open spec fn apart_in_order(reps: Seq<YamlRepetitionData>, n: int) -> bool {
    &&& n <= usize::MAX
    &&& forall|k: int|
        0 <= k < reps.len() ==> #[trigger] reps[k].start_interval_index
            <= reps[k].end_interval_index && reps[k].end_interval_index < n
    &&& forall|j: int, k: int|
        0 <= j < k < reps.len() ==> #[trigger] reps[j].end_interval_index
            < #[trigger] reps[k].start_interval_index
}

/// The mark that repetition `k` of `reps` gives interval `i`.
pub open spec fn covering_mark(reps: Seq<YamlRepetitionData>, k: int, i: int) -> RepetitionMark {
    RepetitionMark {
        repetition_id: (k + 1) as usize,
        position_in_repetition: (i - reps[k].start_interval_index) as usize,
        total_intervals_in_repetition: (reps[k].end_interval_index - reps[k].start_interval_index
            + 1) as usize,
    }
}

/// Repetition `k` holds interval `i`.
pub open spec fn covers(reps: Seq<YamlRepetitionData>, k: int, i: int) -> bool {
    reps[k].start_interval_index <= i <= reps[k].end_interval_index
}

proof fn lemma_mark_inside(reps: Seq<YamlRepetitionData>, n: int, m: int, k: int, i: int)
    requires
        apart_in_order(reps, n),
        0 <= k < m <= reps.len(),
        covers(reps, k, i),
    ensures
        mark_after(reps, m, i) == covering_mark(reps, k, i),
    decreases m,
{
    if m - 1 != k {
        assert(reps[k].end_interval_index < reps[m - 1].start_interval_index);
        lemma_mark_inside(reps, n, m - 1, k, i);
    }
}

proof fn lemma_mark_outside(reps: Seq<YamlRepetitionData>, n: int, m: int, i: int)
    requires
        apart_in_order(reps, n),
        0 <= m <= reps.len(),
        forall|k: int| 0 <= k < m ==> !covers(reps, k, i),
    ensures
        mark_after(reps, m, i) == unmarked(),
    decreases m,
{
    if m > 0 {
        assert(!covers(reps, m - 1, i));
        lemma_mark_outside(reps, n, m - 1, i);
    }
}

/// The mark of interval `i`: that of the repetition holding it, if any.
proof fn lemma_mark_of(reps: Seq<YamlRepetitionData>, n: int, i: int)
    requires
        apart_in_order(reps, n),
    ensures
        forall|k: int|
            0 <= k < reps.len() && covers(reps, k, i) ==> mark_after(reps, reps.len() as int, i)
                == covering_mark(reps, k, i),
        (forall|k: int| 0 <= k < reps.len() ==> !covers(reps, k, i)) ==> mark_after(
            reps,
            reps.len() as int,
            i,
        ) == unmarked(),
{
    assert forall|k: int| 0 <= k < reps.len() && covers(reps, k, i) implies mark_after(
        reps,
        reps.len() as int,
        i,
    ) == covering_mark(reps, k, i) by {
        lemma_mark_inside(reps, n, reps.len() as int, k, i);
    }
    if forall|k: int| 0 <= k < reps.len() ==> !covers(reps, k, i) {
        lemma_mark_outside(reps, n, reps.len() as int, i);
    }
}

/// No interval before the start of repetition `k` carries its mark.
proof fn lemma_id_absent(reps: Seq<YamlRepetitionData>, n: int, k: int, j: int)
    requires
        apart_in_order(reps, n),
        reps.len() < usize::MAX,
        0 <= k < reps.len(),
        0 <= j < n,
        !covers(reps, k, j),
    ensures
        mark_after(reps, reps.len() as int, j).repetition_id != (k + 1) as usize,
{
    lemma_mark_of(reps, n, j);
    if exists|k2: int| 0 <= k2 < reps.len() && #[trigger] covers(reps, k2, j) {
        let k2 = choose|k2: int| 0 <= k2 < reps.len() && #[trigger] covers(reps, k2, j);
        assert(k2 != k);
    }
}

proof fn lemma_count_tail(reps: Seq<YamlRepetitionData>, n: int, k: int, j: int)
    requires
        apart_in_order(reps, n),
        reps.len() < usize::MAX,
        0 <= k < reps.len(),
        reps[k].end_interval_index < j <= n,
    ensures
        count_from(marks_of(n, reps), (k + 1) as usize, j) == 0,
    decreases n - j,
{
    if j < n {
        lemma_id_absent(reps, n, k, j);
        lemma_count_tail(reps, n, k, j + 1);
    }
}

proof fn lemma_count_head(reps: Seq<YamlRepetitionData>, n: int, k: int, j: int)
    requires
        apart_in_order(reps, n),
        reps.len() < usize::MAX,
        0 <= k < reps.len(),
        0 <= j <= reps[k].start_interval_index,
    ensures
        count_from(marks_of(n, reps), (k + 1) as usize, j) == 1,
    decreases reps[k].start_interval_index - j,
{
    let marks = marks_of(n, reps);
    let id = (k + 1) as usize;
    assert(marks.len() == n);
    if j < reps[k].start_interval_index {
        lemma_id_absent(reps, n, k, j);
        assert(marks[j] == mark_after(reps, reps.len() as int, j));
        lemma_count_head(reps, n, k, j + 1);
        assert(count_from(marks, id, j) == count_from(marks, id, j + 1));
    } else {
        lemma_mark_inside(reps, n, reps.len() as int, k, j);
        let e = reps[k].end_interval_index as int;
        lemma_count_tail(reps, n, k, e + 1);
        assert(marks[j] == covering_mark(reps, k, j));
        assert(marks[j].repetition_id == id);
        assert(marks[j].total_intervals_in_repetition == e - j + 1);
        assert(count_from(marks, id, j) == 1 + count_from(marks, id, e + 1));
    }
}

/// What the writer gives for repetition `k` of repetitions apart and in
/// order: its range, played once.
pub open spec fn written_back(reps: Seq<YamlRepetitionData>, k: int) -> YamlRepetitionData {
    YamlRepetitionData {
        start_interval_index: reps[k].start_interval_index,
        end_interval_index: reps[k].end_interval_index,
        num_reps: 1,
    }
}

proof fn lemma_written_upto(reps: Seq<YamlRepetitionData>, n: int, i: int, c: int)
    requires
        apart_in_order(reps, n),
        reps.len() < usize::MAX,
        0 <= i <= n,
        0 <= c <= reps.len(),
        forall|k: int| 0 <= k < c ==> #[trigger] reps[k].start_interval_index < i,
        forall|k: int| c <= k < reps.len() ==> i <= #[trigger] reps[k].start_interval_index,
    ensures
        repetitions_upto(marks_of(n, reps), i) =~= Seq::new(c as nat, |k: int| written_back(reps, k)),
    decreases i,
{
    let marks = marks_of(n, reps);
    if i == 0 {
        if c > 0 {
            assert(reps[0].start_interval_index < 0);
        }
    } else if c > 0 && reps[c - 1].start_interval_index == i - 1 {
        assert forall|k: int| 0 <= k < c - 1 implies #[trigger] reps[k].start_interval_index < i - 1 by {
            assert(reps[k].end_interval_index < reps[c - 1].start_interval_index);
        }
        lemma_written_upto(reps, n, i - 1, c - 1);
        let k = c - 1;
        lemma_mark_inside(reps, n, reps.len() as int, k, i - 1);
        assert(marks[i - 1] == covering_mark(reps, k, i - 1));
        assert forall|j: int| 0 <= j < i - 1 implies #[trigger] marks[j].repetition_id
            != marks[i - 1].repetition_id by {
            lemma_id_absent(reps, n, k, j);
        }
        assert(first_of_repetition(marks, i - 1));
        lemma_count_head(reps, n, k, 0);
        assert(repetition_entry(marks, i - 1) == written_back(reps, k));
    } else {
        assert forall|k: int| 0 <= k < c implies #[trigger] reps[k].start_interval_index < i - 1 by {
            if k < c - 1 {
                assert(reps[k].end_interval_index < reps[c - 1].start_interval_index);
            }
        }
        lemma_written_upto(reps, n, i - 1, c);
        lemma_mark_of(reps, n, i - 1);
        let p = i - 1;
        if exists|k: int| 0 <= k < reps.len() && #[trigger] covers(reps, k, p) {
            let k = choose|k: int| 0 <= k < reps.len() && #[trigger] covers(reps, k, p);
            let s = reps[k].start_interval_index as int;
            assert(s < i - 1);
            lemma_mark_inside(reps, n, reps.len() as int, k, s);
            assert(marks[s] == covering_mark(reps, k, s));
            assert(marks[s].repetition_id == marks[i - 1].repetition_id);
        }
        assert(!first_of_repetition(marks, i - 1));
    }
}

/// Two lists of repetitions name the same ranges, in the same order.
pub open spec fn same_ranges(a: Seq<YamlRepetitionData>, b: Seq<YamlRepetitionData>) -> bool {
    &&& a.len() == b.len()
    &&& forall|k: int|
        0 <= k < a.len() ==> #[trigger] a[k].start_interval_index == b[k].start_interval_index
            && a[k].end_interval_index == b[k].end_interval_index
}

proof fn lemma_same_ranges_same_marks(
    a: Seq<YamlRepetitionData>,
    b: Seq<YamlRepetitionData>,
    m: int,
    i: int,
)
    requires
        0 <= m <= a.len(),
        same_ranges(a, b),
    ensures
        mark_after(a, m, i) == mark_after(b, m, i),
    decreases m,
{
    if m > 0 {
        assert(a[m - 1].start_interval_index == b[m - 1].start_interval_index);
        lemma_same_ranges_same_marks(a, b, m - 1, i);
    }
}

/// Reading repetitions that lie apart and in order, writing the marks back
/// and reading again gives the same marks: each range comes back as it
/// was, in the same order, counted as played once.
pub proof fn lemma_repetitions_round_trip(n: int, reps: Seq<YamlRepetitionData>)
    requires
        0 <= n,
        apart_in_order(reps, n),
        reps.len() < usize::MAX,
    ensures
        repetitions_upto(marks_of(n, reps), n).len() == reps.len(),
        forall|k: int|
            0 <= k < reps.len() ==> #[trigger] repetitions_upto(marks_of(n, reps), n)[k]
                == written_back(reps, k),
        marks_of(n, repetitions_upto(marks_of(n, reps), n)) == marks_of(n, reps),
{
    lemma_written_upto(reps, n, n, reps.len() as int);
    let back = repetitions_upto(marks_of(n, reps), n);
    assert(same_ranges(back, reps));
    assert forall|i: int| 0 <= i < n implies #[trigger] marks_of(n, back)[i] == marks_of(n, reps)[i] by {
        lemma_same_ranges_same_marks(back, reps, back.len() as int, i);
    }
    assert(marks_of(n, back) =~= marks_of(n, reps));
}

} // verus!
