//! The structure of a musical composition: a composition holds movements, a
//! movement holds sections, a section holds bars and repetitions. A
//! repetition, hosted by a section, replays a range of sections a number of
//! times, optionally followed each time by an individual ending.
use vstd::prelude::*;
use crate::tempo::Tempo;

verus! {

/// The view of an optional string.
pub open spec fn opt_str_view(o: Option<String>) -> Option<Seq<char>> {
    match o {
        Some(s) => Some(s@),
        None => None,
    }
}

/// Copies an optional string.
pub fn clone_opt_string(o: &Option<String>) -> (r: Option<String>)
    ensures
        opt_str_view(r) == opt_str_view(*o),
{
    match o {
        Some(s) => Some(s.clone()),
        None => None,
    }
}

/// One bar: its number, its time signature and an optional name.
#[derive(Debug)]
pub struct Bar {
    pub number: usize,
    /// Time signature numerator (4 in 4/4).
    pub numerator: u32,
    /// Time signature denominator (4 in 4/4).
    pub denominator: u32,
    /// Optional name, useful for the bars of an ending.
    pub name: Option<String>,
}

/// The mathematical value of a [`Bar`].
pub struct BarView {
    pub number: usize,
    pub numerator: u32,
    pub denominator: u32,
    pub name: Option<Seq<char>>,
}

impl View for Bar {
    type V = BarView;

    open spec fn view(&self) -> BarView {
        BarView {
            number: self.number,
            numerator: self.numerator,
            denominator: self.denominator,
            name: opt_str_view(self.name),
        }
    }
}

impl Clone for Bar {
    fn clone(&self) -> (r: Self)
        ensures
            r@ == self@,
    {
        Bar {
            number: self.number,
            numerator: self.numerator,
            denominator: self.denominator,
            name: clone_opt_string(&self.name),
        }
    }
}

/// The views of a sequence of bars.
pub open spec fn bars_view(bars: Seq<Bar>) -> Seq<BarView> {
    bars.map_values(|b: Bar| b@)
}

/// Copies a list of bars.
pub fn clone_bars(bars: &Vec<Bar>) -> (r: Vec<Bar>)
    ensures
        bars_view(r@) == bars_view(bars@),
{
    let mut r: Vec<Bar> = Vec::new();
    let mut i: usize = 0;
    while i < bars.len()
        invariant
            i <= bars.len(),
            r@.len() == i,
            forall|j: int| 0 <= j < i ==> r@[j]@ == bars@[j]@,
        decreases bars.len() - i,
    {
        r.push(bars[i].clone());
        i = i + 1;
    }
    assert(bars_view(r@) =~= bars_view(bars@));
    r
}

impl Bar {
    /// A bar with the given number and time signature and no name.
    pub fn new(number: usize, numerator: u32, denominator: u32) -> (b: Bar)
        ensures
            b@ == (BarView { number, numerator, denominator, name: None }),
    {
        Bar { number, numerator, denominator, name: None }
    }

    /// This bar with the given name.
    pub fn with_name(self, name: String) -> (b: Bar)
        ensures
            b@ == (BarView { name: Some(name@), ..self@ }),
    {
        Bar { name: Some(name), ..self }
    }
}


/// A replay of the sections `start_section..=end_section` (0-based, both
/// ends included), performed `num_repetitions` times. Each time may be
/// followed by the same individual ending pattern.
#[derive(Debug)]
pub struct Repetition {
    pub start_section: usize,
    pub end_section: usize,
    pub num_repetitions: usize,
    pub individual_ending_pattern: Option<Vec<Bar>>,
}

/// The mathematical value of a [`Repetition`].
pub struct RepetitionView {
    pub start_section: usize,
    pub end_section: usize,
    pub num_repetitions: usize,
    pub individual_ending_pattern: Option<Seq<BarView>>,
}

/// The view of an optional list of bars.
pub open spec fn opt_bars_view(o: Option<Vec<Bar>>) -> Option<Seq<BarView>> {
    match o {
        Some(v) => Some(bars_view(v@)),
        None => None,
    }
}

impl View for Repetition {
    type V = RepetitionView;

    open spec fn view(&self) -> RepetitionView {
        RepetitionView {
            start_section: self.start_section,
            end_section: self.end_section,
            num_repetitions: self.num_repetitions,
            individual_ending_pattern: opt_bars_view(self.individual_ending_pattern),
        }
    }
}

impl Clone for Repetition {
    fn clone(&self) -> (r: Self)
        ensures
            r@ == self@,
    {
        let pattern = match &self.individual_ending_pattern {
            Some(p) => Some(clone_bars(p)),
            None => None,
        };
        Repetition {
            start_section: self.start_section,
            end_section: self.end_section,
            num_repetitions: self.num_repetitions,
            individual_ending_pattern: pattern,
        }
    }
}

impl Repetition {
    /// A repetition of sections `start_section..=end_section`, performed
    /// `num_repetitions` times, without individual endings.
    pub fn new(start_section: usize, end_section: usize, num_repetitions: usize) -> (r: Repetition)
        ensures
            r@ == (RepetitionView {
                start_section,
                end_section,
                num_repetitions,
                individual_ending_pattern: None,
            }),
    {
        Repetition { start_section, end_section, num_repetitions, individual_ending_pattern: None }
    }

    /// This repetition with the given individual ending pattern.
    pub fn with_individual_ending_pattern(self, ending_pattern: Vec<Bar>) -> (r: Repetition)
        ensures
            r@ == (RepetitionView {
                individual_ending_pattern: Some(bars_view(ending_pattern@)),
                ..self@
            }),
    {
        Repetition { individual_ending_pattern: Some(ending_pattern), ..self }
    }

    /// The length of the individual ending (0 where there is none).
    pub fn individual_ending_length(&self) -> (n: usize)
        ensures
            n == self@.spec_ending_length(),
    {
        match &self.individual_ending_pattern {
            Some(pattern) => pattern.len(),
            None => 0,
        }
    }

    /// Whether this repetition has individual endings.
    pub fn has_individual_endings(&self) -> (b: bool)
        ensures
            b == self@.individual_ending_pattern.is_some(),
    {
        self.individual_ending_pattern.is_some()
    }
}

impl RepetitionView {
    /// The length of the individual ending (0 where there is none).
    pub open spec fn spec_ending_length(self) -> nat {
        match self.individual_ending_pattern {
            Some(p) => p.len(),
            None => 0,
        }
    }
}

/// The views of a sequence of repetitions.
pub open spec fn repetitions_view(reps: Seq<Repetition>) -> Seq<RepetitionView> {
    reps.map_values(|r: Repetition| r@)
}

/// A section: named bars, an optional tempo, and the repetitions it hosts.
#[derive(Debug)]
pub struct Section {
    pub name: String,
    /// Optional tempo; overrides the movement's tempo where present.
    pub tempo_bpm: Option<Tempo>,
    pub bars: Vec<Bar>,
    pub repetitions: Vec<Repetition>,
}

/// The mathematical value of a [`Section`].
pub struct SectionView {
    pub name: Seq<char>,
    pub tempo_bpm: Option<Tempo>,
    pub bars: Seq<BarView>,
    pub repetitions: Seq<RepetitionView>,
}

impl View for Section {
    type V = SectionView;

    open spec fn view(&self) -> SectionView {
        SectionView {
            name: self.name@,
            tempo_bpm: self.tempo_bpm,
            bars: bars_view(self.bars@),
            repetitions: repetitions_view(self.repetitions@),
        }
    }
}

/// The effective tempo of a section: its own, else the movement's.
pub open spec fn inherited_tempo(own: Option<Tempo>, movement_tempo: Option<Tempo>) -> Option<Tempo> {
    match own {
        Some(t) => Some(t),
        None => movement_tempo,
    }
}

impl Section {
    /// An empty section with the given name and no tempo.
    pub fn new(name: String) -> (s: Section)
        ensures
            s@ == (SectionView {
                name: name@,
                tempo_bpm: None,
                bars: Seq::empty(),
                repetitions: Seq::empty(),
            }),
    {
        let s = Section { name, tempo_bpm: None, bars: Vec::new(), repetitions: Vec::new() };
        assert(s@.bars =~= Seq::empty());
        assert(s@.repetitions =~= Seq::empty());
        s
    }

    /// This section with its own tempo.
    pub fn with_tempo(self, tempo_bpm: Tempo) -> (s: Section)
        ensures
            s@ == (SectionView { tempo_bpm: Some(tempo_bpm), ..self@ }),
    {
        Section { tempo_bpm: Some(tempo_bpm), ..self }
    }

    /// The effective tempo: the section's own, else the movement's.
    pub fn effective_tempo(&self, movement_tempo: Option<Tempo>) -> (t: Option<Tempo>)
        ensures
            t == inherited_tempo(self.tempo_bpm, movement_tempo),
    {
        match self.tempo_bpm {
            Some(t) => Some(t),
            None => movement_tempo,
        }
    }

    /// Appends a bar.
    pub fn add_bar(&mut self, bar: Bar)
        ensures
            final(self)@ == (SectionView { bars: old(self)@.bars.push(bar@), ..old(self)@ }),
    {
        self.bars.push(bar);
        assert(bars_view(self.bars@) =~= old(self)@.bars.push(bar@));
    }

    /// Appends a repetition hosted by this section.
    pub fn add_repetition(&mut self, repetition: Repetition)
        ensures
            final(self)@ == (SectionView {
                repetitions: old(self)@.repetitions.push(repetition@),
                ..old(self)@
            }),
    {
        self.repetitions.push(repetition);
        assert(repetitions_view(self.repetitions@) =~= old(self)@.repetitions.push(repetition@));
    }

    /// The number of bars, repetitions not counted.
    pub fn base_bar_count(&self) -> (n: usize)
        ensures
            n == self@.bars.len(),
    {
        self.bars.len()
    }
}


/// The views of a sequence of sections.
pub open spec fn sections_view(sections: Seq<Section>) -> Seq<SectionView> {
    sections.map_values(|s: Section| s@)
}

/// A movement: named sections and an optional tempo that sections inherit.
#[derive(Debug)]
pub struct Movement {
    pub name: String,
    /// Optional tempo, inherited by the sections that have none.
    pub tempo_bpm: Option<Tempo>,
    pub sections: Vec<Section>,
}

/// The mathematical value of a [`Movement`].
pub struct MovementView {
    pub name: Seq<char>,
    pub tempo_bpm: Option<Tempo>,
    pub sections: Seq<SectionView>,
}

impl View for Movement {
    type V = MovementView;

    open spec fn view(&self) -> MovementView {
        MovementView {
            name: self.name@,
            tempo_bpm: self.tempo_bpm,
            sections: sections_view(self.sections@),
        }
    }
}

impl Movement {
    /// An empty movement with the given name and no tempo.
    pub fn new(name: String) -> (m: Movement)
        ensures
            m@ == (MovementView { name: name@, tempo_bpm: None, sections: Seq::empty() }),
    {
        let m = Movement { name, tempo_bpm: None, sections: Vec::new() };
        assert(m@.sections =~= Seq::empty());
        m
    }

    /// This movement with a tempo.
    pub fn with_tempo(self, tempo_bpm: Tempo) -> (m: Movement)
        ensures
            m@ == (MovementView { tempo_bpm: Some(tempo_bpm), ..self@ }),
    {
        Movement { tempo_bpm: Some(tempo_bpm), ..self }
    }

    /// Appends a section.
    pub fn add_section(&mut self, section: Section)
        ensures
            final(self)@ == (MovementView {
                sections: old(self)@.sections.push(section@),
                ..old(self)@
            }),
    {
        self.sections.push(section);
        assert(sections_view(self.sections@) =~= old(self)@.sections.push(section@));
    }

    /// The section with the given 1-based number, if there is one.
    pub fn get_section(&self, section_number: usize) -> (r: Option<&Section>)
        ensures
            match r {
                Some(s) => 1 <= section_number <= self@.sections.len()
                    && s@ == self@.sections[section_number - 1],
                None => !(1 <= section_number <= self@.sections.len()),
            },
    {
        if section_number > 0 && section_number <= self.sections.len() {
            Some(&self.sections[section_number - 1])
        } else {
            None
        }
    }

    /// The effective tempo of each section, in order: the section's own
    /// tempo, else the movement's.
    pub fn get_section_tempos(&self) -> (r: Vec<Option<Tempo>>)
        ensures
            r@.len() == self@.sections.len(),
            forall|i: int|
                0 <= i < r@.len() ==> r@[i] == inherited_tempo(
                    self@.sections[i].tempo_bpm,
                    self@.tempo_bpm,
                ),
    {
        let mut r: Vec<Option<Tempo>> = Vec::new();
        let mut i: usize = 0;
        while i < self.sections.len()
            invariant
                i <= self@.sections.len(),
                r@.len() == i,
                forall|j: int|
                    0 <= j < i ==> r@[j] == inherited_tempo(
                        self@.sections[j].tempo_bpm,
                        self@.tempo_bpm,
                    ),
            decreases self.sections.len() - i,
        {
            r.push(self.sections[i].effective_tempo(self.tempo_bpm));
            i = i + 1;
        }
        r
    }
}

/// The views of a sequence of movements.
pub open spec fn movements_view(movements: Seq<Movement>) -> Seq<MovementView> {
    movements.map_values(|m: Movement| m@)
}

/// A composition: a composer, a work name and its movements.
#[derive(Debug)]
pub struct Composition {
    pub composer_name: String,
    pub work_name: String,
    pub movements: Vec<Movement>,
}

/// The mathematical value of a [`Composition`].
pub struct CompositionView {
    pub composer_name: Seq<char>,
    pub work_name: Seq<char>,
    pub movements: Seq<MovementView>,
}

impl View for Composition {
    type V = CompositionView;

    open spec fn view(&self) -> CompositionView {
        CompositionView {
            composer_name: self.composer_name@,
            work_name: self.work_name@,
            movements: movements_view(self.movements@),
        }
    }
}

impl Composition {
    /// An empty composition.
    pub fn new(composer_name: String, work_name: String) -> (c: Composition)
        ensures
            c@ == (CompositionView {
                composer_name: composer_name@,
                work_name: work_name@,
                movements: Seq::empty(),
            }),
    {
        let c = Composition { composer_name, work_name, movements: Vec::new() };
        assert(c@.movements =~= Seq::empty());
        c
    }

    /// Appends a movement.
    pub fn add_movement(&mut self, movement: Movement)
        ensures
            final(self)@ == (CompositionView {
                movements: old(self)@.movements.push(movement@),
                ..old(self)@
            }),
    {
        self.movements.push(movement);
        assert(movements_view(self.movements@) =~= old(self)@.movements.push(movement@));
    }

    /// The number of movements.
    pub fn movement_count(&self) -> (n: usize)
        ensures
            n == self@.movements.len(),
    {
        self.movements.len()
    }

    /// The movement with the given 1-based number, if there is one.
    pub fn get_movement(&self, movement_number: usize) -> (r: Option<&Movement>)
        ensures
            match r {
                Some(m) => 1 <= movement_number <= self@.movements.len()
                    && m@ == self@.movements[movement_number - 1],
                None => !(1 <= movement_number <= self@.movements.len()),
            },
    {
        if movement_number > 0 && movement_number <= self.movements.len() {
            Some(&self.movements[movement_number - 1])
        } else {
            None
        }
    }
}

} // verus!
