//! Validation of compositions read from YAML, and conversion between the
//! YAML form (1-based section numbers in repetitions) and the internal form
//! (0-based section indices).
use vstd::prelude::*;
use crate::composition::{
    bars_view, clone_bars, opt_bars_view, Bar, BarView, Composition, CompositionView, Movement,
    MovementView, Repetition, RepetitionView, Section, SectionView, repetitions_view,
};
use crate::tempo::Tempo;
use crate::text::{decimal, decimal_string};
use crate::yaml_form::{
    composition_from_yaml, composition_to_yaml, index_from_number, movement_from_yaml,
    movement_to_yaml, numbers_fit, repetition_from_yaml, repetition_to_yaml, section_from_yaml,
    section_to_yaml, YamlComposition,
};

verus! {

use vstd::arithmetic::power::lemma_pow0;
use vstd::arithmetic::power2::{lemma_pow2_pos, lemma_pow2_unfold, pow2};

#[verifier::external_type_specification]
#[verifier::external_body]
pub struct ExIoError(std::io::Error);

/// Errors of reading, writing and validating compositions.
#[derive(Debug)]
pub enum CompositionReaderError {
    FileNotFound(String),
    InvalidYaml(String),
    ValidationError(String),
    IoError(std::io::Error),
}

/// `n` is a power of two (1, 2, 4, ...).
pub open spec fn is_power_of_two(n: nat) -> bool
    decreases n,
{
    if n <= 1 {
        n == 1
    } else {
        n % 2 == 0 && is_power_of_two(n / 2)
    }
}

/// Decides whether `n` is a power of two.
pub fn u32_is_power_of_two(n: u32) -> (b: bool)
    ensures
        b == is_power_of_two(n as nat),
{
    let mut k: u32 = n;
    while k > 1 && k % 2 == 0
        invariant
            is_power_of_two(k as nat) == is_power_of_two(n as nat),
        decreases k,
    {
        k = k / 2;
    }
    k == 1
}

/// A message `"<prefix><n + 1><suffix>"`.
pub open spec fn numbered(prefix: Seq<char>, n: int, suffix: Seq<char>) -> Seq<char> {
    prefix + decimal((n + 1) as nat) + suffix
}

/// A message `"<prefix>'<name>'<suffix>"`.
pub open spec fn quoted(prefix: Seq<char>, name: Seq<char>, suffix: Seq<char>) -> Seq<char> {
    prefix + "'"@ + name + "'"@ + suffix
}

fn numbered_message(prefix: &str, n: usize, suffix: &str) -> (s: String)
    requires
        n < usize::MAX,
    ensures
        s@ == numbered(prefix@, n as int, suffix@),
{
    let mut s = prefix.to_owned();
    let number = decimal_string(n + 1);
    s.append(number.as_str());
    s.append(suffix);
    s
}

fn quoted_message(prefix: &str, name: &String, suffix: &str) -> (s: String)
    ensures
        s@ == quoted(prefix@, name@, suffix@),
{
    let mut s = prefix.to_owned();
    s.append("'");
    s.append(name.as_str());
    s.append("'");
    s.append(suffix);
    s
}

/// The first defect of bar `b` (0-based index `idx`), if any.
pub open spec fn bar_error(b: BarView, idx: int) -> Option<Seq<char>> {
    if b.numerator == 0 {
        Some(numbered("Bar "@, idx, " numerator cannot be zero"@))
    } else if b.denominator == 0 {
        Some(numbered("Bar "@, idx, " denominator cannot be zero"@))
    } else if !is_power_of_two(b.denominator as nat) {
        Some(numbered("Bar "@, idx, " denominator must be a power of 2"@))
    } else {
        None
    }
}

proof fn lemma_power_of_two_pow2(n: nat)
    ensures
        is_power_of_two(n) <==> exists|e: nat| pow2(e) == n,
    decreases n,
{
    if n <= 1 {
        if n == 1 {
            lemma_pow0(2);
            assert(pow2(0) == n);
        } else {
            assert forall|e: nat| pow2(e) != n by {
                lemma_pow2_pos(e);
            }
        }
    } else {
        lemma_power_of_two_pow2(n / 2);
        if is_power_of_two(n) {
            let e = choose|e: nat| pow2(e) == n / 2;
            lemma_pow2_unfold(e + 1);
            assert(pow2(e + 1) == n);
        }
        if exists|e: nat| pow2(e) == n {
            let e = choose|e: nat| pow2(e) == n;
            if e == 0 {
                lemma_pow0(2);
            } else {
                lemma_pow2_unfold(e);
                assert(pow2((e - 1) as nat) == n / 2);
            }
        }
    }
}

/// A bar passes validation exactly when its numerator is not zero and its
/// denominator is a power of two (1, 2, 4, 8, ...).
pub proof fn lemma_valid_bar(b: BarView, idx: int)
    ensures
        (bar_error(b, idx) is None) <==> (b.numerator != 0 && exists|e: nat|
            pow2(e) == b.denominator),
{
    lemma_power_of_two_pow2(b.denominator as nat);
    if b.denominator == 0 {
        assert forall|e: nat| pow2(e) != b.denominator by {
            lemma_pow2_pos(e);
        }
    }
}

/// The first defect among the bars `0..n`, if any.
pub open spec fn bars_error(bars: Seq<BarView>, n: int) -> Option<Seq<char>>
    decreases n,
{
    if n <= 0 {
        None
    } else {
        match bars_error(bars, n - 1) {
            Some(e) => Some(e),
            None => bar_error(bars[n - 1], n - 1),
        }
    }
}

proof fn lemma_bars_error_stable(bars: Seq<BarView>, a: int, b: int)
    requires
        0 <= a <= b,
        bars_error(bars, a) is Some,
    ensures
        bars_error(bars, b) == bars_error(bars, a),
    decreases b - a,
{
    if a < b {
        lemma_bars_error_stable(bars, a, b - 1);
    }
}

proof fn lemma_repetitions_error_stable(reps: Seq<RepetitionView>, a: int, b: int, total: int)
    requires
        0 <= a <= b,
        repetitions_error(reps, a, total) is Some,
    ensures
        repetitions_error(reps, b, total) == repetitions_error(reps, a, total),
    decreases b - a,
{
    if a < b {
        lemma_repetitions_error_stable(reps, a, b - 1, total);
    }
}

proof fn lemma_overlap_row_stable(reps: Seq<RepetitionView>, i: int, a: int, b: int)
    requires
        0 <= a <= b,
        overlap_in_row(reps, i, a) is Some,
    ensures
        overlap_in_row(reps, i, b) == overlap_in_row(reps, i, a),
    decreases b - a,
{
    if a < b {
        lemma_overlap_row_stable(reps, i, a, b - 1);
    }
}

proof fn lemma_overlap_error_stable(reps: Seq<RepetitionView>, a: int, b: int)
    requires
        0 <= a <= b,
        overlap_error(reps, a) is Some,
    ensures
        overlap_error(reps, b) == overlap_error(reps, a),
    decreases b - a,
{
    if a < b {
        lemma_overlap_error_stable(reps, a, b - 1);
    }
}

proof fn lemma_sections_error_stable(sections: Seq<SectionView>, a: int, b: int)
    requires
        0 <= a <= b,
        sections_error(sections, a) is Some,
    ensures
        sections_error(sections, b) == sections_error(sections, a),
    decreases b - a,
{
    if a < b {
        lemma_sections_error_stable(sections, a, b - 1);
    }
}

proof fn lemma_movements_error_stable(movements: Seq<MovementView>, a: int, b: int)
    requires
        0 <= a <= b,
        movements_error(movements, a) is Some,
    ensures
        movements_error(movements, b) == movements_error(movements, a),
    decreases b - a,
{
    if a < b {
        lemma_movements_error_stable(movements, a, b - 1);
    }
}

/// The defect of repetition `rep` (0-based index `idx`) of a movement with
/// `total` sections, if any.
pub open spec fn repetition_error(rep: RepetitionView, idx: int, total: int) -> Option<Seq<char>> {
    if rep.start_section >= total {
        Some(
            numbered("Repetition "@, idx, " start_section (internal: "@) + decimal(
                rep.start_section as nat,
            ) + ", YAML: "@ + decimal((rep.start_section + 1) as nat) + ") exceeds available sections ("@
                + decimal(total as nat) + ")"@,
        )
    } else if rep.end_section >= total {
        Some(
            numbered("Repetition "@, idx, " end_section (internal: "@) + decimal(
                rep.end_section as nat,
            ) + ", YAML: "@ + decimal((rep.end_section + 1) as nat) + ") exceeds available sections ("@
                + decimal(total as nat) + ")"@,
        )
    } else if rep.start_section > rep.end_section {
        Some(
            numbered("Repetition "@, idx, " start_section ("@) + decimal(
                (rep.start_section + 1) as nat,
            ) + ") cannot be greater than end_section ("@ + decimal((rep.end_section + 1) as nat)
                + ")"@,
        )
    } else if rep.num_repetitions == 0 {
        Some(numbered("Repetition "@, idx, " num_repetitions cannot be zero"@))
    } else {
        match rep.individual_ending_pattern {
            Some(p) => bars_error(p, p.len() as int),
            None => None,
        }
    }
}

/// Repetition indices leave room for the 1-based numbers in messages.
pub open spec fn indices_below_max(rep: RepetitionView) -> bool {
    rep.start_section < usize::MAX && rep.end_section < usize::MAX
}

/// The first defect among the repetitions `0..n`, if any.
pub open spec fn repetitions_error(reps: Seq<RepetitionView>, n: int, total: int) -> Option<
    Seq<char>,
>
    decreases n,
{
    if n <= 0 {
        None
    } else {
        match repetitions_error(reps, n - 1, total) {
            Some(e) => Some(e),
            None => repetition_error(reps[n - 1], n - 1, total),
        }
    }
}

/// The section ranges of two repetitions overlap.
pub open spec fn overlapping(a: RepetitionView, b: RepetitionView) -> bool {
    !(a.end_section < b.start_section || b.end_section < a.start_section)
}

/// The message for overlapping repetitions `i` and `j` (0-based).
pub open spec fn overlap_message(i: int, j: int) -> Seq<char> {
    numbered("Repetitions "@, i, " and "@) + decimal((j + 1) as nat)
        + " have overlapping section ranges"@
}

/// The first `j < n`, `j != i`, whose repetition overlaps repetition `i`.
pub open spec fn overlap_in_row(reps: Seq<RepetitionView>, i: int, n: int) -> Option<int>
    decreases n,
{
    if n <= 0 {
        None
    } else {
        match overlap_in_row(reps, i, n - 1) {
            Some(j) => Some(j),
            None => if n - 1 != i && overlapping(reps[i], reps[n - 1]) {
                Some(n - 1)
            } else {
                None
            },
        }
    }
}

/// The first overlapping pair `(i, j)`, `i` in `0..n`, in row order.
pub open spec fn overlap_error(reps: Seq<RepetitionView>, n: int) -> Option<Seq<char>>
    decreases n,
{
    if n <= 0 {
        None
    } else {
        match overlap_error(reps, n - 1) {
            Some(e) => Some(e),
            None => match overlap_in_row(reps, n - 1, reps.len() as int) {
                Some(j) => Some(overlap_message(n - 1, j)),
                None => None,
            },
        }
    }
}

/// No two different repetitions among `reps` overlap.
pub open spec fn overlap_free(reps: Seq<RepetitionView>) -> bool {
    forall|i: int, j: int|
        0 <= i < reps.len() && 0 <= j < reps.len() && i != j ==> !overlapping(
            #[trigger] reps[i],
            #[trigger] reps[j],
        )
}

proof fn lemma_row_none(reps: Seq<RepetitionView>, i: int, n: int)
    requires
        0 <= n <= reps.len(),
    ensures
        (overlap_in_row(reps, i, n) is None) <==> (forall|j: int|
            0 <= j < n && j != i ==> !overlapping(reps[i], #[trigger] reps[j])),
        overlap_in_row(reps, i, n) matches Some(j) ==> 0 <= j < n && j != i && overlapping(
            reps[i],
            reps[j],
        ),
    decreases n,
{
    if n > 0 {
        lemma_row_none(reps, i, n - 1);
    }
}

proof fn lemma_rows_none(reps: Seq<RepetitionView>, n: int)
    requires
        0 <= n <= reps.len(),
    ensures
        (overlap_error(reps, n) is None) <==> (forall|i: int, j: int|
            0 <= i < n && 0 <= j < reps.len() && i != j ==> !overlapping(
                #[trigger] reps[i],
                #[trigger] reps[j],
            )),
    decreases n,
{
    if n > 0 {
        lemma_rows_none(reps, n - 1);
        lemma_row_none(reps, n - 1, reps.len() as int);
        if overlap_error(reps, n - 1) is None && overlap_in_row(reps, n - 1, reps.len() as int) is Some {
            let j = overlap_in_row(reps, n - 1, reps.len() as int)->0;
            assert(overlapping(reps[n - 1], reps[j]));
        }
    }
}

/// The overlap check passes exactly when no two different repetitions
/// overlap.
pub proof fn lemma_overlap_check_iff(reps: Seq<RepetitionView>)
    ensures
        (overlap_error(reps, reps.len() as int) is None) == overlap_free(reps),
{
    lemma_rows_none(reps, reps.len() as int);
}

/// A reported overlap names two repetitions that overlap, the one with the
/// smaller number first.
pub proof fn lemma_overlap_reported_in_order(reps: Seq<RepetitionView>, n: int)
    requires
        0 <= n <= reps.len(),
        overlap_error(reps, n) is Some,
    ensures
        exists|i: int, j: int|
            0 <= i < j < reps.len() && overlapping(reps[i], reps[j]) && overlap_error(reps, n)
                == Some(overlap_message(i, j)),
    decreases n,
{
    if overlap_error(reps, n - 1) is Some {
        lemma_overlap_reported_in_order(reps, n - 1);
    } else {
        let i = n - 1;
        lemma_row_none(reps, i, reps.len() as int);
        let j = overlap_in_row(reps, i, reps.len() as int)->0;
        lemma_rows_none(reps, n - 1);
        if j < i {
            assert(overlapping(reps[j], reps[i]));
            assert(false);
        }
        assert(0 <= i < j < reps.len() && overlapping(reps[i], reps[j]) && overlap_error(reps, n)
            == Some(overlap_message(i, j)));
    }
}

/// Whether repetitions overlap does not depend on their order: `b` lists
/// the repetitions of `a`, entry `k` of `b` being entry `perm[k]` of `a`.
pub proof fn lemma_overlap_check_order_free(a: Seq<RepetitionView>, b: Seq<RepetitionView>, perm: Seq<int>)
    requires
        a.len() == b.len(),
        perm.len() == b.len(),
        forall|k: int| 0 <= k < b.len() ==> 0 <= #[trigger] perm[k] < a.len() && b[k] == a[perm[k]],
        forall|x: int, y: int| 0 <= x < y < perm.len() ==> #[trigger] perm[x] != #[trigger] perm[y],
        forall|i: int| 0 <= i < a.len() ==> #[trigger] perm.contains(i),
    ensures
        (overlap_error(b, b.len() as int) is None) == (overlap_error(a, a.len() as int) is None),
{
    lemma_overlap_check_iff(a);
    lemma_overlap_check_iff(b);
    if overlap_free(a) {
        assert forall|x: int, y: int|
            0 <= x < b.len() && 0 <= y < b.len() && x != y implies !overlapping(
            #[trigger] b[x],
            #[trigger] b[y],
        ) by {
            if x < y {
                assert(perm[x] != perm[y]);
            } else {
                assert(perm[y] != perm[x]);
            }
            assert(b[x] == a[perm[x]] && b[y] == a[perm[y]]);
        }
    }
    if overlap_free(b) {
        assert forall|i: int, j: int|
            0 <= i < a.len() && 0 <= j < a.len() && i != j implies !overlapping(
            #[trigger] a[i],
            #[trigger] a[j],
        ) by {
            assert(perm.contains(i) && perm.contains(j));
            let x = choose|k: int| 0 <= k < perm.len() && perm[k] == i;
            let y = choose|k: int| 0 <= k < perm.len() && perm[k] == j;
            assert(b[x] == a[i] && b[y] == a[j]);
            assert(x != y);
        }
    }
}

/// The first defect of section `sec` (0-based index `idx`) of a movement
/// with `total` sections, if any.
pub open spec fn section_error(sec: SectionView, idx: int, total: int) -> Option<Seq<char>> {
    if sec.name.len() == 0 {
        Some(numbered("Section "@, idx, " name cannot be empty"@))
    } else if sec.tempo_bpm is Some && sec.tempo_bpm->0.is_at_most_zero() {
        Some(quoted("Section "@, sec.name, " tempo must be positive"@))
    } else if sec.bars.len() == 0 {
        Some(quoted("Section "@, sec.name, " must have at least one bar"@))
    } else {
        match bars_error(sec.bars, sec.bars.len() as int) {
            Some(e) => Some(e),
            None => match repetitions_error(sec.repetitions, sec.repetitions.len() as int, total) {
                Some(e) => Some(e),
                None => overlap_error(sec.repetitions, sec.repetitions.len() as int),
            },
        }
    }
}

/// The first defect among the sections `0..n` of a movement, if any.
pub open spec fn sections_error(sections: Seq<SectionView>, n: int) -> Option<Seq<char>>
    decreases n,
{
    if n <= 0 {
        None
    } else {
        match sections_error(sections, n - 1) {
            Some(e) => Some(e),
            None => section_error(sections[n - 1], n - 1, sections.len() as int),
        }
    }
}

/// The first defect of movement `m` (0-based index `idx`), if any.
pub open spec fn movement_error(m: MovementView, idx: int) -> Option<Seq<char>> {
    if m.name.len() == 0 {
        Some(numbered("Movement "@, idx, " name cannot be empty"@))
    } else if m.tempo_bpm is Some && m.tempo_bpm->0.is_at_most_zero() {
        Some(quoted("Movement "@, m.name, " tempo must be positive"@))
    } else if m.sections.len() == 0 {
        Some(quoted("Movement "@, m.name, " must have at least one section"@))
    } else {
        sections_error(m.sections, m.sections.len() as int)
    }
}

/// The first defect among the movements `0..n`, if any.
pub open spec fn movements_error(movements: Seq<MovementView>, n: int) -> Option<Seq<char>>
    decreases n,
{
    if n <= 0 {
        None
    } else {
        match movements_error(movements, n - 1) {
            Some(e) => Some(e),
            None => movement_error(movements[n - 1], n - 1),
        }
    }
}

/// The first defect of a composition, in the order the reader checks, if any.
pub open spec fn composition_error(c: CompositionView) -> Option<Seq<char>> {
    if c.composer_name.len() == 0 {
        Some("Composer name cannot be empty"@)
    } else if c.work_name.len() == 0 {
        Some("Work name cannot be empty"@)
    } else if c.movements.len() == 0 {
        Some("Composition must have at least one movement"@)
    } else {
        movements_error(c.movements, c.movements.len() as int)
    }
}

/// Every repetition of the composition has indices below `usize::MAX`.
pub open spec fn repetition_indices_fit(c: CompositionView) -> bool {
    forall|mi: int, si: int, ri: int|
        0 <= mi < c.movements.len() && 0 <= si < c.movements[mi].sections.len() && 0 <= ri
            < c.movements[mi].sections[si].repetitions.len() ==> indices_below_max(
            #[trigger] c.movements[mi].sections[si].repetitions[ri],
        )
}

/// The outcome that a validation step owes for the defect `e`.
pub open spec fn reports(r: Result<(), CompositionReaderError>, e: Option<Seq<char>>) -> bool {
    match e {
        None => r is Ok,
        Some(msg) => match r {
            Err(CompositionReaderError::ValidationError(s)) => s@ == msg,
            _ => false,
        },
    }
}

/// Every repetition index of a composition converted from YAML lies below
/// `usize::MAX`.
pub proof fn lemma_from_yaml_indices_fit(y: CompositionView)
    ensures
        repetition_indices_fit(composition_from_yaml(y)),
{
    let c = composition_from_yaml(y);
    assert forall|mi: int, si: int, ri: int|
        0 <= mi < c.movements.len() && 0 <= si < c.movements[mi].sections.len() && 0 <= ri
            < c.movements[mi].sections[si].repetitions.len() implies indices_below_max(
        #[trigger] c.movements[mi].sections[si].repetitions[ri],
    ) by {
        let yr = y.movements[mi].sections[si].repetitions[ri];
        assert(c.movements[mi].sections[si].repetitions[ri] == repetition_from_yaml(yr));
    }
}

/// Writing a composition in YAML form and reading it back gives the same
/// composition.
pub proof fn lemma_yaml_round_trip(c: CompositionView)
    requires
        numbers_fit(c),
    ensures
        composition_from_yaml(composition_to_yaml(c)) == c,
{
    let back = composition_from_yaml(composition_to_yaml(c));
    assert forall|mi: int| 0 <= mi < c.movements.len() implies #[trigger] back.movements[mi]
        == c.movements[mi] by {
        let m = c.movements[mi];
        let bm = back.movements[mi];
        assert forall|si: int| 0 <= si < m.sections.len() implies #[trigger] bm.sections[si]
            == m.sections[si] by {
            let sec = m.sections[si];
            let bs = bm.sections[si];
            assert forall|ri: int| 0 <= ri < sec.repetitions.len() implies #[trigger] bs.repetitions[ri]
                == sec.repetitions[ri] by {
                let r = sec.repetitions[ri];
                assert(r == c.movements[mi].sections[si].repetitions[ri]);
            }
            assert(bs.repetitions =~= sec.repetitions);
        }
        assert(bm.sections =~= m.sections);
    }
    assert(back.movements =~= c.movements);
}

/// `e.to_string()` for an I/O error. What it reads depends on the error's
/// kind and on the operating system's text for it, so nothing is stated of
/// the result.
#[verifier::external_body]
fn io_error_text(e: &std::io::Error) -> (s: String) {
    e.to_string()
}

/// The text of an error: its kind and the detail it carries.
pub open spec fn error_text(prefix: Seq<char>, detail: Seq<char>) -> Seq<char> {
    prefix + detail
}

impl CompositionReaderError {
    /// The message of this error, `"<kind>: <detail>"`.
    pub fn message(&self) -> (s: String)
        ensures
            match self {
                CompositionReaderError::FileNotFound(p) => s@ == error_text("File not found: "@, p@),
                CompositionReaderError::InvalidYaml(m) => s@ == error_text("Invalid YAML: "@, m@),
                CompositionReaderError::ValidationError(m) => s@ == error_text(
                    "Validation error: "@,
                    m@,
                ),
                CompositionReaderError::IoError(_) => exists|d: Seq<char>|
                    s@ == error_text("IO error: "@, d),
            },
    {
        let (mut s, detail) = match self {
            CompositionReaderError::FileNotFound(p) => ("File not found: ".to_owned(), p.as_str()),
            CompositionReaderError::InvalidYaml(m) => ("Invalid YAML: ".to_owned(), m.as_str()),
            CompositionReaderError::ValidationError(m) => ("Validation error: ".to_owned(), m.as_str()),
            CompositionReaderError::IoError(e) => {
                let mut s = "IO error: ".to_owned();
                let text = io_error_text(e);
                s.append(text.as_str());
                assert(s@ == error_text("IO error: "@, text@));
                return s;
            },
        };
        s.append(detail);
        s
    }
}

impl From<std::io::Error> for CompositionReaderError {
    fn from(err: std::io::Error) -> (r: Self) {
        CompositionReaderError::IoError(err)
    }
}

impl vstd::std_specs::convert::FromSpecImpl<std::io::Error> for CompositionReaderError {
    open spec fn obeys_from_spec() -> bool {
        true
    }

    open spec fn from_spec(err: std::io::Error) -> Self {
        CompositionReaderError::IoError(err)
    }
}

/// A valid composition written in YAML form is read back as itself: the
/// reader finds no defect and gives the same composition, 0-based section
/// indices included.
pub proof fn lemma_valid_composition_reads_back(c: CompositionView)
    requires
        numbers_fit(c),
        composition_error(c) is None,
    ensures
        composition_error(composition_from_yaml(composition_to_yaml(c))) is None,
        composition_from_yaml(composition_to_yaml(c)) == c,
{
    lemma_yaml_round_trip(c);
}

/// The reader and writer of compositions.
pub struct CompositionReader;

impl CompositionReader {
    /// Checks a bar's time signature: a non-zero numerator and a
    /// denominator that is a power of two.
    pub fn validate_bar(bar: &Bar, bar_idx: usize) -> (r: Result<(), CompositionReaderError>)
        requires
            bar_idx < usize::MAX,
        ensures
            reports(r, bar_error(bar@, bar_idx as int)),
    {
        if bar.numerator == 0 {
            return Err(
                CompositionReaderError::ValidationError(
                    numbered_message("Bar ", bar_idx, " numerator cannot be zero"),
                ),
            );
        }
        if bar.denominator == 0 {
            return Err(
                CompositionReaderError::ValidationError(
                    numbered_message("Bar ", bar_idx, " denominator cannot be zero"),
                ),
            );
        }
        if !u32_is_power_of_two(bar.denominator) {
            return Err(
                CompositionReaderError::ValidationError(
                    numbered_message("Bar ", bar_idx, " denominator must be a power of 2"),
                ),
            );
        }
        Ok(())
    }

    /// Checks a repetition of a movement with `total_sections` sections: its
    /// section range must lie within the movement and be ordered, it must be
    /// performed at least once, and its ending bars must be valid.
    pub fn validate_repetition(repetition: &Repetition, rep_idx: usize, total_sections: usize) -> (r:
        Result<(), CompositionReaderError>)
        requires
            rep_idx < usize::MAX,
            indices_below_max(repetition@),
        ensures
            reports(r, repetition_error(repetition@, rep_idx as int, total_sections as int)),
    {
        if repetition.start_section >= total_sections {
            let mut msg = numbered_message("Repetition ", rep_idx, " start_section (internal: ");
            msg.append(decimal_string(repetition.start_section).as_str());
            msg.append(", YAML: ");
            msg.append(decimal_string(repetition.start_section + 1).as_str());
            msg.append(") exceeds available sections (");
            msg.append(decimal_string(total_sections).as_str());
            msg.append(")");
            return Err(CompositionReaderError::ValidationError(msg));
        }
        if repetition.end_section >= total_sections {
            let mut msg = numbered_message("Repetition ", rep_idx, " end_section (internal: ");
            msg.append(decimal_string(repetition.end_section).as_str());
            msg.append(", YAML: ");
            msg.append(decimal_string(repetition.end_section + 1).as_str());
            msg.append(") exceeds available sections (");
            msg.append(decimal_string(total_sections).as_str());
            msg.append(")");
            return Err(CompositionReaderError::ValidationError(msg));
        }
        if repetition.start_section > repetition.end_section {
            let mut msg = numbered_message("Repetition ", rep_idx, " start_section (");
            msg.append(decimal_string(repetition.start_section + 1).as_str());
            msg.append(") cannot be greater than end_section (");
            msg.append(decimal_string(repetition.end_section + 1).as_str());
            msg.append(")");
            return Err(CompositionReaderError::ValidationError(msg));
        }
        if repetition.num_repetitions == 0 {
            return Err(
                CompositionReaderError::ValidationError(
                    numbered_message("Repetition ", rep_idx, " num_repetitions cannot be zero"),
                ),
            );
        }
        match &repetition.individual_ending_pattern {
            Some(ending_pattern) => Self::validate_bars(ending_pattern),
            None => Ok(()),
        }
    }

    /// Checks that no two repetitions hosted by one section replay
    /// overlapping section ranges; the first overlapping pair in row order
    /// is reported.
    pub fn check_repetition_overlaps(repetitions: &[Repetition]) -> (r: Result<(), CompositionReaderError>)
        ensures
            reports(
                r,
                overlap_error(
                    repetitions_view(repetitions@),
                    repetitions@.len() as int,
                ),
            ),
    {
        let ghost rv = repetitions_view(repetitions@);
        let n = repetitions.len();
        let mut i: usize = 0;
        while i < n
            invariant
                n == repetitions@.len(),
                rv == repetitions_view(repetitions@),
                i <= n,
                overlap_error(rv, i as int) is None,
            decreases n - i,
        {
            let rep1 = &repetitions[i];
            assert(rv[i as int] == rep1@);
            let mut j: usize = 0;
            while j < n
                invariant
                    n == repetitions@.len(),
                    rv == repetitions_view(repetitions@),
                    i < n,
                    j <= n,
                    rv[i as int] == rep1@,
                    overlap_error(rv, i as int) is None,
                    overlap_in_row(rv, i as int, j as int) is None,
                decreases n - j,
            {
                let rep2 = &repetitions[j];
                assert(rv[j as int] == rep2@);
                if i != j {
                    let overlap = !(rep1.end_section < rep2.start_section || rep2.end_section
                        < rep1.start_section);
                    if overlap {
                        let mut msg = numbered_message("Repetitions ", i, " and ");
                        msg.append(decimal_string(j + 1).as_str());
                        msg.append(" have overlapping section ranges");
                        proof {
                            lemma_overlap_row_stable(rv, i as int, j + 1, n as int);
                            lemma_overlap_error_stable(rv, i + 1, n as int);
                        }
                        return Err(CompositionReaderError::ValidationError(msg));
                    }
                }
                j = j + 1;
            }
            i = i + 1;
        }
        Ok(())
    }

    /// Checks a section (0-based index `section_idx`) of a movement with
    /// `total_sections` sections: a name, a positive tempo if any, at least
    /// one bar, valid bars, valid repetitions that do not overlap.
    pub fn validate_section(section: &Section, section_idx: usize, total_sections: usize) -> (r:
        Result<(), CompositionReaderError>)
        requires
            section_idx < usize::MAX,
            forall|ri: int|
                0 <= ri < section@.repetitions.len() ==> indices_below_max(
                    #[trigger] section@.repetitions[ri],
                ),
        ensures
            reports(r, section_error(section@, section_idx as int, total_sections as int)),
    {
        if section.name.as_str().is_empty() {
            return Err(
                CompositionReaderError::ValidationError(
                    numbered_message("Section ", section_idx, " name cannot be empty"),
                ),
            );
        }
        if let Some(tempo) = section.tempo_bpm {
            if tempo.at_most_zero() {
                return Err(
                    CompositionReaderError::ValidationError(
                        quoted_message("Section ", &section.name, " tempo must be positive"),
                    ),
                );
            }
        }
        if section.bars.is_empty() {
            return Err(
                CompositionReaderError::ValidationError(
                    quoted_message("Section ", &section.name, " must have at least one bar"),
                ),
            );
        }
        let r = Self::validate_bars(&section.bars);
        if r.is_err() {
            return r;
        }
        let ghost rv = section@.repetitions;
        let mut i: usize = 0;
        while i < section.repetitions.len()
            invariant
                i <= rv.len(),
                rv == section@.repetitions,
                repetitions_error(rv, i as int, total_sections as int) is None,
                section_error(section@, section_idx as int, total_sections as int) == match repetitions_error(rv, rv.len() as int, total_sections as int) {
                    Some(e) => Some(e),
                    None => overlap_error(rv, rv.len() as int),
                },
                forall|ri: int| 0 <= ri < rv.len() ==> indices_below_max(#[trigger] rv[ri]),
            decreases section.repetitions.len() - i,
        {
            assert(rv[i as int] == section.repetitions@[i as int]@);
            let r = Self::validate_repetition(&section.repetitions[i], i, total_sections);
            if r.is_err() {
                assert(repetitions_error(rv, i + 1, total_sections as int) == repetition_error(
                    rv[i as int],
                    i as int,
                    total_sections as int,
                ));
                proof {
                    lemma_repetitions_error_stable(rv, i + 1, rv.len() as int, total_sections as int);
                }
                return r;
            }
            i = i + 1;
        }
        let r = Self::check_repetition_overlaps(section.repetitions.as_slice());
        assert(repetitions_view(section.repetitions@) =~= rv);
        r
    }

    /// Checks a movement (0-based index `movement_idx`): a name, a positive
    /// tempo if any, at least one section, valid sections.
    pub fn validate_movement(movement: &Movement, movement_idx: usize) -> (r: Result<
        (),
        CompositionReaderError,
    >)
        requires
            movement_idx < usize::MAX,
            forall|si: int, ri: int|
                0 <= si < movement@.sections.len() && 0 <= ri
                    < movement@.sections[si].repetitions.len() ==> indices_below_max(
                    #[trigger] movement@.sections[si].repetitions[ri],
                ),
        ensures
            reports(r, movement_error(movement@, movement_idx as int)),
    {
        if movement.name.as_str().is_empty() {
            return Err(
                CompositionReaderError::ValidationError(
                    numbered_message("Movement ", movement_idx, " name cannot be empty"),
                ),
            );
        }
        if let Some(tempo) = movement.tempo_bpm {
            if tempo.at_most_zero() {
                return Err(
                    CompositionReaderError::ValidationError(
                        quoted_message("Movement ", &movement.name, " tempo must be positive"),
                    ),
                );
            }
        }
        if movement.sections.is_empty() {
            return Err(
                CompositionReaderError::ValidationError(
                    quoted_message("Movement ", &movement.name, " must have at least one section"),
                ),
            );
        }
        let ghost sv = movement@.sections;
        let mut i: usize = 0;
        while i < movement.sections.len()
            invariant
                i <= sv.len(),
                sv == movement@.sections,
                sections_error(sv, i as int) is None,
                movement_error(movement@, movement_idx as int) == sections_error(sv, sv.len() as int),
                forall|si: int, ri: int|
                    0 <= si < sv.len() && 0 <= ri < sv[si].repetitions.len() ==> indices_below_max(
                        #[trigger] sv[si].repetitions[ri],
                    ),
            decreases movement.sections.len() - i,
        {
            assert(sv[i as int] == movement.sections@[i as int]@);
            let r = Self::validate_section(&movement.sections[i], i, movement.sections.len());
            if r.is_err() {
                assert(sections_error(sv, i + 1) == section_error(sv[i as int], i as int, sv.len() as int));
                proof {
                    lemma_sections_error_stable(sv, i + 1, sv.len() as int);
                }
                return r;
            }
            i = i + 1;
        }
        Ok(())
    }

    /// Checks a composition: a composer name, a work name, at least one
    /// movement, valid movements. The first defect is reported, in this order.
    pub fn validate_composition(composition: &Composition) -> (r: Result<(), CompositionReaderError>)
        requires
            repetition_indices_fit(composition@),
        ensures
            reports(r, composition_error(composition@)),
    {
        if composition.composer_name.as_str().is_empty() {
            return Err(
                CompositionReaderError::ValidationError("Composer name cannot be empty".to_owned()),
            );
        }
        if composition.work_name.as_str().is_empty() {
            return Err(
                CompositionReaderError::ValidationError("Work name cannot be empty".to_owned()),
            );
        }
        if composition.movements.is_empty() {
            return Err(
                CompositionReaderError::ValidationError(
                    "Composition must have at least one movement".to_owned(),
                ),
            );
        }
        let ghost mv = composition@.movements;
        let mut i: usize = 0;
        while i < composition.movements.len()
            invariant
                i <= mv.len(),
                mv == composition@.movements,
                movements_error(mv, i as int) is None,
                repetition_indices_fit(composition@),
                composition_error(composition@) == movements_error(mv, mv.len() as int),
            decreases composition.movements.len() - i,
        {
            assert(mv[i as int] == composition.movements@[i as int]@);
            let r = Self::validate_movement(&composition.movements[i], i);
            if r.is_err() {
                assert(movements_error(mv, i + 1) == movement_error(mv[i as int], i as int));
                proof {
                    lemma_movements_error_stable(mv, i + 1, mv.len() as int);
                }

                return r;
            }
            i = i + 1;
        }
        Ok(())
    }

    /// Turns a composition in YAML form into the internal form and checks it:
    /// the composition if it is valid, else the first defect found.
    pub fn read_from_yaml(yaml: YamlComposition) -> (r: Result<Composition, CompositionReaderError>)
        ensures
            match composition_error(composition_from_yaml(yaml@)) {
                None => r matches Ok(c) && c@ == composition_from_yaml(yaml@),
                Some(msg) => r matches Err(CompositionReaderError::ValidationError(s)) && s@ == msg,
            },
    {
        proof {
            lemma_from_yaml_indices_fit(yaml@);
        }
        let composition = Composition::from_yaml(yaml);
        match Self::validate_composition(&composition) {
            Ok(()) => Ok(composition),
            Err(e) => Err(e),
        }
    }

    /// The YAML form of a composition, ready to be written out.
    pub fn to_yaml(composition: &Composition) -> (y: YamlComposition)
        requires
            numbers_fit(composition@),
        ensures
            y@ == composition_to_yaml(composition@),
    {
        YamlComposition::from_composition(composition)
    }

    /// Checks bars in order; the first defect is reported.
    fn validate_bars(bars: &Vec<Bar>) -> (r: Result<(), CompositionReaderError>)
        ensures
            reports(r, bars_error(bars_view(bars@), bars@.len() as int)),
    {
        let ghost bv = bars_view(bars@);
        let mut i: usize = 0;
        while i < bars.len()
            invariant
                i <= bars@.len(),
                bv == bars_view(bars@),
                bars_error(bv, i as int) is None,
            decreases bars.len() - i,
        {
            assert(bv[i as int] == bars@[i as int]@);
            let r = Self::validate_bar(&bars[i], i);
            if r.is_err() {
                proof {
                    lemma_bars_error_stable(bv, i + 1, bv.len() as int);
                }
                return r;
            }
            i = i + 1;
        }
        Ok(())
    }
}

} // verus!
