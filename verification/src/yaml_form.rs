//! The YAML form of a composition: the same structure, but repetitions name
//! their sections by 1-based number. Conversions go both ways.
use vstd::prelude::*;
use crate::composition::{
    bars_view, clone_bars, clone_opt_string, opt_bars_view, Bar, Composition, CompositionView,
    Movement, MovementView, Repetition, RepetitionView, Section, SectionView,
};
use crate::tempo::Tempo;

verus! {

broadcast use vstd::std_specs::vec::axiom_spec_into_iter;

/// A repetition as written in YAML: 1-based section numbers.
#[derive(Debug)]
pub struct YamlRepetition {
    pub start_section: usize,
    pub end_section: usize,
    pub num_repetitions: usize,
    pub individual_ending_pattern: Option<Vec<Bar>>,
}

impl View for YamlRepetition {
    type V = RepetitionView;

    open spec fn view(&self) -> RepetitionView {
        RepetitionView {
            start_section: self.start_section,
            end_section: self.end_section,
            num_repetitions: self.num_repetitions,
            individual_ending_pattern: opt_bars_view(self.individual_ending_pattern),
        }
    }
}

/// A section as written in YAML.
#[derive(Debug)]
pub struct YamlSection {
    pub name: String,
    pub tempo_bpm: Option<Tempo>,
    pub bars: Vec<Bar>,
    pub repetitions: Vec<YamlRepetition>,
}

impl View for YamlSection {
    type V = SectionView;

    open spec fn view(&self) -> SectionView {
        SectionView {
            name: self.name@,
            tempo_bpm: self.tempo_bpm,
            bars: bars_view(self.bars@),
            repetitions: self.repetitions@.map_values(|r: YamlRepetition| r@),
        }
    }
}

/// A movement as written in YAML.
#[derive(Debug)]
pub struct YamlMovement {
    pub name: String,
    pub tempo_bpm: Option<Tempo>,
    pub sections: Vec<YamlSection>,
}

impl View for YamlMovement {
    type V = MovementView;

    open spec fn view(&self) -> MovementView {
        MovementView {
            name: self.name@,
            tempo_bpm: self.tempo_bpm,
            sections: self.sections@.map_values(|s: YamlSection| s@),
        }
    }
}

/// A composition as written in YAML.
#[derive(Debug)]
pub struct YamlComposition {
    pub composer_name: String,
    pub work_name: String,
    pub movements: Vec<YamlMovement>,
}

impl View for YamlComposition {
    type V = CompositionView;

    open spec fn view(&self) -> CompositionView {
        CompositionView {
            composer_name: self.composer_name@,
            work_name: self.work_name@,
            movements: self.movements@.map_values(|m: YamlMovement| m@),
        }
    }
}

/// A 1-based section number as a 0-based index (0 stays 0).
pub open spec fn index_from_number(n: usize) -> usize {
    if n == 0 {
        0
    } else {
        (n - 1) as usize
    }
}

pub open spec fn repetition_from_yaml(r: RepetitionView) -> RepetitionView {
    RepetitionView {
        start_section: index_from_number(r.start_section),
        end_section: index_from_number(r.end_section),
        ..r
    }
}

pub open spec fn section_from_yaml(s: SectionView) -> SectionView {
    SectionView { repetitions: s.repetitions.map_values(|r| repetition_from_yaml(r)), ..s }
}

pub open spec fn movement_from_yaml(m: MovementView) -> MovementView {
    MovementView { sections: m.sections.map_values(|s| section_from_yaml(s)), ..m }
}

/// The internal form of a composition written in YAML.
pub open spec fn composition_from_yaml(c: CompositionView) -> CompositionView {
    CompositionView { movements: c.movements.map_values(|m| movement_from_yaml(m)), ..c }
}

pub open spec fn repetition_to_yaml(r: RepetitionView) -> RepetitionView {
    RepetitionView {
        start_section: (r.start_section + 1) as usize,
        end_section: (r.end_section + 1) as usize,
        ..r
    }
}

pub open spec fn section_to_yaml(s: SectionView) -> SectionView {
    SectionView { repetitions: s.repetitions.map_values(|r| repetition_to_yaml(r)), ..s }
}

pub open spec fn movement_to_yaml(m: MovementView) -> MovementView {
    MovementView { sections: m.sections.map_values(|s| section_to_yaml(s)), ..m }
}

/// The YAML form of a composition.
pub open spec fn composition_to_yaml(c: CompositionView) -> CompositionView {
    CompositionView { movements: c.movements.map_values(|m| movement_to_yaml(m)), ..c }
}

/// Section `s` has the name, tempo, bars and repetitions of section `t`,
/// but for the repetitions' section numbers: one more than in `t` where
/// `shift` is positive, else one less (0 staying 0).
pub open spec fn same_but_numbers(
    s: SectionView,
    t: SectionView,
    shift: int,
) -> bool {
    &&& s.name == t.name
    &&& s.tempo_bpm == t.tempo_bpm
    &&& s.bars == t.bars
    &&& s.repetitions.len() == t.repetitions.len()
    &&& forall|ri: int|
        0 <= ri < s.repetitions.len() ==> {
            let a = #[trigger] s.repetitions[ri];
            let b = t.repetitions[ri];
            &&& a.num_repetitions == b.num_repetitions
            &&& a.individual_ending_pattern == b.individual_ending_pattern
            &&& if shift > 0 {
                a.start_section == b.start_section + 1 && a.end_section == b.end_section + 1
            } else {
                &&& a.start_section == (if b.start_section == 0 {
                    0
                } else {
                    b.start_section - 1
                })
                &&& a.end_section == (if b.end_section == 0 {
                    0
                } else {
                    b.end_section - 1
                })
            }
        }
}

/// Two compositions alike in everything but the repetitions' section
/// numbers (see [`same_but_numbers`]).
pub open spec fn alike_but_numbers(c: CompositionView, d: CompositionView, shift: int) -> bool {
    &&& c.composer_name == d.composer_name
    &&& c.work_name == d.work_name
    &&& c.movements.len() == d.movements.len()
    &&& forall|mi: int|
        0 <= mi < c.movements.len() ==> {
            let m = #[trigger] c.movements[mi];
            let n = d.movements[mi];
            &&& m.name == n.name
            &&& m.tempo_bpm == n.tempo_bpm
            &&& m.sections.len() == n.sections.len()
            &&& forall|si: int|
                0 <= si < m.sections.len() ==> same_but_numbers(
                    #[trigger] m.sections[si],
                    n.sections[si],
                    shift,
                )
        }
}

/// Reading the YAML form keeps names, tempos and every bar as written;
/// only the repetitions' 1-based section numbers become 0-based (0 stays 0).
pub proof fn lemma_from_yaml_keeps_content(y: CompositionView)
    ensures
        alike_but_numbers(composition_from_yaml(y), y, 0),
{
}

/// Writing the YAML form keeps names, tempos and every bar; only the
/// repetitions' section indices become 1-based numbers.
pub proof fn lemma_to_yaml_keeps_content(c: CompositionView)
    requires
        numbers_fit(c),
    ensures
        alike_but_numbers(composition_to_yaml(c), c, 1),
{
    let y = composition_to_yaml(c);
    assert forall|mi: int| 0 <= mi < y.movements.len() implies {
        let m = #[trigger] y.movements[mi];
        let n = c.movements[mi];
        forall|si: int|
            0 <= si < m.sections.len() ==> same_but_numbers(#[trigger] m.sections[si], n.sections[si], 1)
    } by {
        let m = y.movements[mi];
        let n = c.movements[mi];
        assert forall|si: int| 0 <= si < m.sections.len() implies same_but_numbers(
            #[trigger] m.sections[si],
            n.sections[si],
            1,
        ) by {
            assert forall|ri: int| 0 <= ri < m.sections[si].repetitions.len() implies {
                let a = #[trigger] m.sections[si].repetitions[ri];
                let b = n.sections[si].repetitions[ri];
                a.start_section == b.start_section + 1 && a.end_section == b.end_section + 1
            } by {
                let b = n.sections[si].repetitions[ri];
                assert(b.start_section < usize::MAX && b.end_section < usize::MAX);
            }
        }
    }
}

impl Repetition {
    /// The repetition written in YAML, its section numbers made 0-based.
    pub fn from_yaml(yaml: YamlRepetition) -> (r: Repetition)
        ensures
            r@ == repetition_from_yaml(yaml@),
    {
        Repetition {
            start_section: yaml.start_section.saturating_sub(1),
            end_section: yaml.end_section.saturating_sub(1),
            num_repetitions: yaml.num_repetitions,
            individual_ending_pattern: yaml.individual_ending_pattern,
        }
    }
}

impl Section {
    /// The section written in YAML, its repetitions converted.
    pub fn from_yaml(yaml: YamlSection) -> (s: Section)
        ensures
            s@ == section_from_yaml(yaml@),
    {
        let ghost src = yaml.repetitions@;
        let mut repetitions: Vec<Repetition> = Vec::new();
        for r in it: yaml.repetitions.into_iter()
            invariant
                it.seq() == src,
                repetitions@.len() == it.index(),
                forall|j: int|
                    0 <= j < repetitions@.len() ==> #[trigger] repetitions@[j]@
                        == repetition_from_yaml(src[j]@),
        {
            repetitions.push(Repetition::from_yaml(r));
        }
        let s = Section { name: yaml.name, tempo_bpm: yaml.tempo_bpm, bars: yaml.bars, repetitions };
        assert(s@.repetitions =~= section_from_yaml(yaml@).repetitions);
        s
    }
}


impl Movement {
    /// The movement written in YAML, its sections converted.
    pub fn from_yaml(yaml: YamlMovement) -> (m: Movement)
        ensures
            m@ == movement_from_yaml(yaml@),
    {
        let ghost src = yaml.sections@;
        let mut sections: Vec<Section> = Vec::new();
        for s in it: yaml.sections.into_iter()
            invariant
                it.seq() == src,
                sections@.len() == it.index(),
                forall|j: int|
                    0 <= j < sections@.len() ==> #[trigger] sections@[j]@ == section_from_yaml(
                        src[j]@,
                    ),
        {
            sections.push(Section::from_yaml(s));
        }
        let m = Movement { name: yaml.name, tempo_bpm: yaml.tempo_bpm, sections };
        assert(m@.sections =~= movement_from_yaml(yaml@).sections);
        m
    }
}

impl Composition {
    /// The composition written in YAML, its repetitions' 1-based section
    /// numbers turned into 0-based indices (a number 0 stays 0).
    pub fn from_yaml(yaml: YamlComposition) -> (c: Composition)
        ensures
            c@ == composition_from_yaml(yaml@),
    {
        let ghost src = yaml.movements@;
        let mut movements: Vec<Movement> = Vec::new();
        for m in it: yaml.movements.into_iter()
            invariant
                it.seq() == src,
                movements@.len() == it.index(),
                forall|j: int|
                    0 <= j < movements@.len() ==> #[trigger] movements@[j]@ == movement_from_yaml(
                        src[j]@,
                    ),
        {
            movements.push(Movement::from_yaml(m));
        }
        let c = Composition {
            composer_name: yaml.composer_name,
            work_name: yaml.work_name,
            movements,
        };
        assert(c@.movements =~= composition_from_yaml(yaml@).movements);
        c
    }
}

/// Every repetition of the composition has indices below `usize::MAX`, so
/// its 1-based section numbers fit.
pub open spec fn numbers_fit(c: CompositionView) -> bool {
    forall|mi: int, si: int, ri: int|
        0 <= mi < c.movements.len() && 0 <= si < c.movements[mi].sections.len() && 0 <= ri
            < c.movements[mi].sections[si].repetitions.len() ==> {
            let r = #[trigger] c.movements[mi].sections[si].repetitions[ri];
            r.start_section < usize::MAX && r.end_section < usize::MAX
        }
}

impl YamlRepetition {
    /// The YAML form of a repetition: 1-based section numbers.
    pub fn from_repetition(r: &Repetition) -> (y: YamlRepetition)
        requires
            r@.start_section < usize::MAX,
            r@.end_section < usize::MAX,
        ensures
            y@ == repetition_to_yaml(r@),
    {
        let pattern = match &r.individual_ending_pattern {
            Some(p) => Some(clone_bars(p)),
            None => None,
        };
        YamlRepetition {
            start_section: r.start_section + 1,
            end_section: r.end_section + 1,
            num_repetitions: r.num_repetitions,
            individual_ending_pattern: pattern,
        }
    }
}

impl YamlSection {
    /// The YAML form of a section.
    pub fn from_section(s: &Section) -> (y: YamlSection)
        requires
            forall|ri: int|
                0 <= ri < s@.repetitions.len() ==> (#[trigger] s@.repetitions[ri]).start_section
                    < usize::MAX && s@.repetitions[ri].end_section < usize::MAX,
        ensures
            y@ == section_to_yaml(s@),
    {
        let mut repetitions: Vec<YamlRepetition> = Vec::new();
        let mut i: usize = 0;
        while i < s.repetitions.len()
            invariant
                i <= s@.repetitions.len(),
                repetitions@.len() == i,
                forall|ri: int|
                    0 <= ri < s@.repetitions.len() ==> (#[trigger] s@.repetitions[ri]).start_section
                        < usize::MAX && s@.repetitions[ri].end_section < usize::MAX,
                forall|j: int|
                    0 <= j < i ==> #[trigger] repetitions@[j]@ == repetition_to_yaml(
                        s@.repetitions[j],
                    ),
            decreases s.repetitions.len() - i,
        {
            assert(s@.repetitions[i as int] == s.repetitions@[i as int]@);
            repetitions.push(YamlRepetition::from_repetition(&s.repetitions[i]));
            i = i + 1;
        }
        let y = YamlSection {
            name: s.name.clone(),
            tempo_bpm: s.tempo_bpm,
            bars: clone_bars(&s.bars),
            repetitions,
        };
        assert(y@.repetitions =~= section_to_yaml(s@).repetitions);
        y
    }
}

impl YamlMovement {
    /// The YAML form of a movement.
    pub fn from_movement(m: &Movement) -> (y: YamlMovement)
        requires
            forall|si: int, ri: int|
                0 <= si < m@.sections.len() && 0 <= ri < m@.sections[si].repetitions.len() ==> {
                    let r = #[trigger] m@.sections[si].repetitions[ri];
                    r.start_section < usize::MAX && r.end_section < usize::MAX
                },
        ensures
            y@ == movement_to_yaml(m@),
    {
        let mut sections: Vec<YamlSection> = Vec::new();
        let mut i: usize = 0;
        while i < m.sections.len()
            invariant
                i <= m@.sections.len(),
                sections@.len() == i,
                forall|si: int, ri: int|
                    0 <= si < m@.sections.len() && 0 <= ri < m@.sections[si].repetitions.len() ==> {
                        let r = #[trigger] m@.sections[si].repetitions[ri];
                        r.start_section < usize::MAX && r.end_section < usize::MAX
                    },
                forall|j: int| 0 <= j < i ==> #[trigger] sections@[j]@ == section_to_yaml(m@.sections[j]),
            decreases m.sections.len() - i,
        {
            assert(m@.sections[i as int] == m.sections@[i as int]@);
            assert forall|ri: int|
                0 <= ri < m@.sections[i as int].repetitions.len() implies (
                #[trigger] m@.sections[i as int].repetitions[ri]).start_section < usize::MAX
                && m@.sections[i as int].repetitions[ri].end_section < usize::MAX by {}
            sections.push(YamlSection::from_section(&m.sections[i]));
            i = i + 1;
        }
        let y = YamlMovement { name: m.name.clone(), tempo_bpm: m.tempo_bpm, sections };
        assert(y@.sections =~= movement_to_yaml(m@).sections);
        y
    }
}

impl YamlComposition {
    /// The YAML form of a composition: repetitions name their sections by
    /// 1-based number.
    pub fn from_composition(c: &Composition) -> (y: YamlComposition)
        requires
            numbers_fit(c@),
        ensures
            y@ == composition_to_yaml(c@),
    {
        let mut movements: Vec<YamlMovement> = Vec::new();
        let mut i: usize = 0;
        while i < c.movements.len()
            invariant
                i <= c@.movements.len(),
                movements@.len() == i,
                numbers_fit(c@),
                forall|j: int| 0 <= j < i ==> #[trigger] movements@[j]@ == movement_to_yaml(c@.movements[j]),
            decreases c.movements.len() - i,
        {
            assert(c@.movements[i as int] == c.movements@[i as int]@);
            assert forall|si: int, ri: int|
                0 <= si < c@.movements[i as int].sections.len() && 0 <= ri
                    < c@.movements[i as int].sections[si].repetitions.len() implies {
                let r = #[trigger] c@.movements[i as int].sections[si].repetitions[ri];
                r.start_section < usize::MAX && r.end_section < usize::MAX
            } by {
                let r = c@.movements[i as int].sections[si].repetitions[ri];
                assert(r == c@.movements[i as int].sections[si].repetitions[ri]);
            }
            movements.push(YamlMovement::from_movement(&c.movements[i]));
            i = i + 1;
        }
        let y = YamlComposition {
            composer_name: c.composer_name.clone(),
            work_name: c.work_name.clone(),
            movements,
        };
        assert(y@.movements =~= composition_to_yaml(c@).movements);
        y
    }
}

} // verus!
