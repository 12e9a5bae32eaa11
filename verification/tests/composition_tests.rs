use flex_metro_core::bar_reference::BarReference;
use flex_metro_core::composition::{Bar, Composition, Movement, Repetition, Section};
use flex_metro_core::tempo::Tempo;

fn bpm(v: f64) -> Tempo {
    Tempo::from_bits(v.to_bits())
}

#[test]
fn test_composition_creation() {
    let mut composition = Composition::new(
        "Ludwig van Beethoven".to_string(),
        "Symphony No. 9".to_string(),
    );

    let mut movement = Movement::new("I. Allegro ma non troppo".to_string()).with_tempo(bpm(120.0));
    let mut section = Section::new("Exposition".to_string());

    section.add_bar(Bar::new(1, 4, 4));
    section.add_bar(Bar::new(2, 4, 4));
    movement.add_section(section);

    composition.add_movement(movement);

    assert_eq!(composition.composer_name, "Ludwig van Beethoven");
    assert_eq!(composition.work_name, "Symphony No. 9");
    assert_eq!(composition.movement_count(), 1);
}

#[test]
fn test_repetition_bar_counting() {
    let mut movement = Movement::new("Test Movement".to_string());

    let mut section1 = Section::new("A".to_string());
    section1.add_bar(Bar::new(1, 4, 4));
    section1.add_bar(Bar::new(2, 4, 4));
    movement.add_section(section1);

    let mut section2 = Section::new("B".to_string());
    section2.add_bar(Bar::new(3, 4, 4));
    section2.add_bar(Bar::new(4, 4, 4));

    let repetition = Repetition::new(0, 1, 2).with_individual_ending_pattern(vec![Bar::new(1, 4, 4)]);
    section2.add_repetition(repetition);

    movement.add_section(section2);

    assert_eq!(movement.total_bar_count(), 14);

    let sequence = movement.generate_bar_sequence();
    assert_eq!(sequence.len(), 14);

    let repetition_bars: Vec<_> = sequence.iter().filter(|b| b.is_repetition).collect();
    assert_eq!(repetition_bars.len(), 10);
}

fn count_ranges<F: Fn(&flex_metro_core::bar_reference::BarReferences) -> bool>(
    bar_ref: &BarReference,
    f: F,
) -> usize {
    bar_ref
        .get_all_ranges()
        .iter()
        .filter(|(start, _)| match bar_ref.get_bar_objects(*start) {
            Some(refs) => f(&refs),
            None => false,
        })
        .count()
}

#[test]
fn test_bar_reference_creation() {
    let mut composition = Composition::new("Test Composer".to_string(), "Test Work".to_string());

    let mut movement = Movement::new("I. Allegro".to_string()).with_tempo(bpm(120.0));

    let mut section1 = Section::new("Exposition".to_string());
    section1.add_bar(Bar::new(1, 4, 4));
    section1.add_bar(Bar::new(2, 4, 4));
    movement.add_section(section1);

    let mut section2 = Section::new("Development".to_string());
    section2.add_bar(Bar::new(3, 4, 4));
    section2.add_bar(Bar::new(4, 4, 4));

    let repetition = Repetition::new(0, 0, 1)
        .with_individual_ending_pattern(vec![Bar::new(1, 4, 4).with_name("ending".to_string())]);
    section2.add_repetition(repetition);

    movement.add_section(section2);
    composition.add_movement(movement);

    let bar_ref = BarReference::new(&composition);

    assert!(bar_ref.contains_bar(1));
    assert!(bar_ref.contains_bar(4));
    assert!(bar_ref.contains_bar(7));
    assert!(!bar_ref.contains_bar(8));

    let bar1_ref = bar_ref.get_bar_objects(1).expect("Bar 1 should exist");
    assert_eq!(bar1_ref.movement_index, 0);
    assert_eq!(bar1_ref.section_index, 0);
    assert_eq!(bar1_ref.section.name, "Exposition");
    assert_eq!(bar1_ref.repetition_index, None);
    assert!(!bar1_ref.is_individual_ending);

    let bar5_ref = bar_ref.get_bar_objects(5).expect("Bar 5 should exist (repetition)");
    assert_eq!(bar5_ref.movement_index, 0);
    assert_eq!(bar5_ref.section_index, 0);
    assert_eq!(bar5_ref.section.name, "Exposition");
    assert_eq!(bar5_ref.repetition_index, Some(0));
    assert!(!bar5_ref.is_individual_ending);

    let bar7_ref = bar_ref.get_bar_objects(7).expect("Bar 7 should exist (individual ending)");
    assert_eq!(bar7_ref.movement_index, 0);
    assert_eq!(bar7_ref.section_index, 1);
    assert_eq!(bar7_ref.repetition_index, Some(0));
    assert!(bar7_ref.is_individual_ending);

    assert_eq!(bar_ref.total_bars(), 7);
    assert_eq!(bar_ref.get_all_ranges().len(), 7);

    assert_eq!(count_ranges(&bar_ref, |r| r.movement_index == 0), 7);
    assert_eq!(count_ranges(&bar_ref, |r| r.section_index == 0), 4);
    assert_eq!(count_ranges(&bar_ref, |r| r.repetition_index.is_some()), 3);
    assert_eq!(count_ranges(&bar_ref, |r| r.is_individual_ending), 1);
}

#[test]
fn test_bar_reference_multiple_movements() {
    let mut composition =
        Composition::new("Test Composer".to_string(), "Multi-Movement Work".to_string());

    let mut movement1 = Movement::new("I. Allegro".to_string());
    let mut section1 = Section::new("Theme".to_string());
    section1.add_bar(Bar::new(1, 4, 4));
    section1.add_bar(Bar::new(2, 4, 4));
    movement1.add_section(section1);
    composition.add_movement(movement1);

    let mut movement2 = Movement::new("II. Andante".to_string());
    let mut section2 = Section::new("Variation".to_string());
    section2.add_bar(Bar::new(1, 3, 4));
    section2.add_bar(Bar::new(2, 3, 4));
    section2.add_bar(Bar::new(3, 3, 4));
    movement2.add_section(section2);
    composition.add_movement(movement2);

    let bar_ref = BarReference::new(&composition);

    assert_eq!(bar_ref.total_bars(), 5);

    let bar2_ref = bar_ref.get_bar_objects(2).expect("Bar 2 should exist");
    assert_eq!(bar2_ref.movement_index, 0);
    assert_eq!(bar2_ref.movement.name, "I. Allegro");

    let bar3_ref = bar_ref.get_bar_objects(3).expect("Bar 3 should exist");
    assert_eq!(bar3_ref.movement_index, 1);
    assert_eq!(bar3_ref.movement.name, "II. Andante");

    assert_eq!(count_ranges(&bar_ref, |r| r.movement_index == 0), 2);
    assert_eq!(count_ranges(&bar_ref, |r| r.movement_index == 1), 3);
}

#[test]
fn test_bar_reference_empty_composition() {
    let composition = Composition::new("Empty Composer".to_string(), "Empty Work".to_string());

    let bar_ref = BarReference::new(&composition);

    assert_eq!(bar_ref.total_bars(), 0);
    assert!(!bar_ref.contains_bar(1));
    assert!(bar_ref.get_bar_objects(1).is_none());
    assert!(bar_ref.get_all_ranges().is_empty());
}

#[test]
fn test_bar_reference_with_beethoven_example() {
    let mut composition = Composition::new(
        "Ludwig van Beethoven".to_string(),
        "Symphony No. 5 (simplified)".to_string(),
    );

    let mut movement1 = Movement::new("I. Allegro con brio".to_string()).with_tempo(bpm(108.0));

    let mut first_theme = Section::new("First Theme".to_string());
    for i in 1..=4 {
        first_theme.add_bar(Bar::new(i, 2, 4));
    }
    movement1.add_section(first_theme);

    let mut bridge = Section::new("Bridge".to_string());
    bridge.add_bar(Bar::new(5, 2, 4));
    bridge.add_bar(Bar::new(6, 2, 4));

    let repetition = Repetition::new(0, 0, 1).with_individual_ending_pattern(vec![
        Bar::new(1, 2, 4).with_name("first ending".to_string()),
        Bar::new(2, 2, 4).with_name("transition".to_string()),
    ]);
    bridge.add_repetition(repetition);
    movement1.add_section(bridge);

    composition.add_movement(movement1);

    let bar_ref = BarReference::new(&composition);

    assert_eq!(bar_ref.total_bars(), 12);

    let bar1_ref = bar_ref.get_bar_objects(1).expect("Bar 1 should exist");
    assert_eq!(bar1_ref.section.name, "First Theme");
    assert_eq!(bar1_ref.repetition_index, None);

    let bar7_ref = bar_ref.get_bar_objects(7).expect("Bar 7 should exist (repeated first theme)");
    assert_eq!(bar7_ref.section.name, "First Theme");
    assert_eq!(bar7_ref.repetition_index, Some(0));
    assert!(!bar7_ref.is_individual_ending);

    let bar11_ref = bar_ref.get_bar_objects(11).expect("Bar 11 should exist (individual ending)");
    assert_eq!(bar11_ref.repetition_index, Some(0));
    assert!(bar11_ref.is_individual_ending);

    assert_eq!(count_ranges(&bar_ref, |r| r.movement_index == 0 && r.section_index == 0), 8);
    assert_eq!(count_ranges(&bar_ref, |r| r.repetition_index.is_some()), 6);
    assert_eq!(count_ranges(&bar_ref, |r| r.is_individual_ending), 2);
}

#[test]
fn test_composition_with_repetitions() {
    let mut composition = Composition::new(
        "Wolfgang Amadeus Mozart".to_string(),
        "Piano Sonata No. 16 in C major, K. 545".to_string(),
    );

    let mut movement1 = Movement::new("I. Allegro".to_string()).with_tempo(bpm(120.0));

    let mut exposition = Section::new("Exposition".to_string());
    exposition.add_bar(Bar::new(1, 4, 4).with_name("A".to_string()));
    exposition.add_bar(Bar::new(2, 4, 4));
    exposition.add_bar(Bar::new(3, 4, 4));
    exposition.add_bar(Bar::new(4, 4, 4));
    movement1.add_section(exposition);

    let mut development = Section::new("Development".to_string());
    development.add_bar(Bar::new(5, 4, 4).with_name("B".to_string()));
    development.add_bar(Bar::new(6, 4, 4));

    let repetition = Repetition::new(0, 0, 2).with_individual_ending_pattern(vec![
        Bar::new(1, 4, 4).with_name("forte".to_string()),
        Bar::new(2, 4, 4),
    ]);
    development.add_repetition(repetition);
    movement1.add_section(development);

    let mut recapitulation = Section::new("Recapitulation".to_string());
    recapitulation.add_bar(Bar::new(7, 4, 4).with_name("A'".to_string()));
    recapitulation.add_bar(Bar::new(8, 4, 4));
    movement1.add_section(recapitulation);

    composition.add_movement(movement1);

    let movement = composition
        .get_movement(1)
        .expect("Movement 1 should exist in test composition");

    assert_eq!(movement.total_bar_count(), 20);

    let sequence = movement.generate_bar_sequence();
    for expanded_bar in sequence.iter() {
        if expanded_bar.is_repetition {
            expanded_bar
                .repetition_index
                .expect("Repetition index should be present for repetition");
        }
    }

    assert_eq!(sequence.len(), 20);

    let exposition_bars = sequence.iter().filter(|b| b.section_name == "Exposition").count();
    let development_bars = sequence.iter().filter(|b| b.section_name == "Development").count();
    let recapitulation_bars = sequence.iter().filter(|b| b.section_name == "Recapitulation").count();
    let ending_bars = sequence.iter().filter(|b| b.is_individual_ending).count();

    assert_eq!(exposition_bars, 12);
    assert_eq!(development_bars, 2);
    assert_eq!(recapitulation_bars, 2);
    assert_eq!(ending_bars, 4);
}

#[test]
fn test_complex_repetition_structure() {
    let mut movement = Movement::new("Complex Movement".to_string());

    let mut section_a = Section::new("A".to_string());
    section_a.add_bar(Bar::new(1, 4, 4));
    section_a.add_bar(Bar::new(2, 4, 4));
    movement.add_section(section_a);

    let mut section_b = Section::new("B".to_string());
    section_b.add_bar(Bar::new(3, 4, 4));
    section_b.add_bar(Bar::new(4, 4, 4));
    movement.add_section(section_b);

    let mut section_c = Section::new("C".to_string());
    section_c.add_bar(Bar::new(5, 4, 4));

    let repetition = Repetition::new(0, 1, 3).with_individual_ending_pattern(vec![Bar::new(1, 3, 4)]);
    section_c.add_repetition(repetition);
    movement.add_section(section_c);

    let total_bars = movement.total_bar_count();
    assert_eq!(total_bars, 20);

    let sequence = movement.generate_bar_sequence();
    assert_eq!(sequence.len(), 20);

    let repetition_bars: Vec<_> = sequence.iter().filter(|b| b.is_repetition).collect();

    let first_repetition_bars: Vec<_> = repetition_bars
        .iter()
        .filter(|b| !b.is_individual_ending)
        .take(4)
        .collect();

    assert_eq!(first_repetition_bars[0].original_bar.number, 1);
    assert_eq!(first_repetition_bars[1].original_bar.number, 2);
    assert_eq!(first_repetition_bars[2].original_bar.number, 3);
    assert_eq!(first_repetition_bars[3].original_bar.number, 4);
}

#[test]
fn test_tempo_inheritance() {
    let mut movement = Movement::new("Tempo Inheritance Movement".to_string()).with_tempo(bpm(120.0));

    let mut section_a = Section::new("Section A (inherits)".to_string());
    section_a.add_bar(Bar::new(1, 4, 4));
    section_a.add_bar(Bar::new(2, 4, 4));
    movement.add_section(section_a);

    let mut section_b = Section::new("Section B (overrides)".to_string()).with_tempo(bpm(96.0));
    section_b.add_bar(Bar::new(3, 4, 4));
    section_b.add_bar(Bar::new(4, 4, 4));
    movement.add_section(section_b);

    let mut section_c = Section::new("Section C (inherits)".to_string());
    section_c.add_bar(Bar::new(5, 3, 4));
    movement.add_section(section_c);

    let section_tempos = movement.get_section_tempos();

    assert_eq!(section_tempos[0], Some(bpm(120.0)));
    assert_eq!(section_tempos[1], Some(bpm(96.0)));
    assert_eq!(section_tempos[2], Some(bpm(120.0)));

    assert_eq!(movement.sections[0].effective_tempo(movement.tempo_bpm), Some(bpm(120.0)));
    assert_eq!(movement.sections[1].effective_tempo(movement.tempo_bpm), Some(bpm(96.0)));
    assert_eq!(movement.sections[2].effective_tempo(movement.tempo_bpm), Some(bpm(120.0)));

    let mut movement_no_tempo = Movement::new("No Tempo Movement".to_string());
    let mut section_no_tempo = Section::new("No Tempo Section".to_string());
    section_no_tempo.add_bar(Bar::new(1, 4, 4));
    movement_no_tempo.add_section(section_no_tempo);

    let no_tempo_result = movement_no_tempo.get_section_tempos();
    assert_eq!(no_tempo_result[0], None);
}

#[test]
fn repeated_bars_are_numbered_from_one_in_each_pass() {
    let mut movement = Movement::new("M".to_string());
    let mut a = Section::new("A".to_string());
    a.add_bar(Bar::new(10, 4, 4));
    a.add_bar(Bar::new(11, 4, 4));
    movement.add_section(a);
    let mut b = Section::new("B".to_string());
    b.add_bar(Bar::new(12, 3, 4));
    b.add_repetition(Repetition::new(0, 0, 2));
    movement.add_section(b);

    let sequence = movement.generate_bar_sequence();
    let numbers: Vec<usize> = sequence.iter().map(|b| b.original_bar.number).collect();
    assert_eq!(numbers, vec![10, 11, 12, 1, 2, 1, 2]);
    let logical: Vec<usize> = sequence.iter().map(|b| b.logical_bar_number).collect();
    assert_eq!(logical, vec![1, 2, 3, 4, 5, 6, 7]);
    assert!(sequence[3].is_repetition && sequence[3].repetition_index == Some(0));
    assert_eq!(sequence[3].section_name, "A");
}

#[test]
fn composition_total_adds_movements() {
    let mut composition = Composition::new("C".to_string(), "W".to_string());
    for n in 0..3usize {
        let mut m = Movement::new("M".to_string());
        let mut s = Section::new("S".to_string());
        for i in 0..=n {
            s.add_bar(Bar::new(i + 1, 4, 4));
        }
        m.add_section(s);
        composition.add_movement(m);
    }
    assert_eq!(composition.total_bar_count(), 6);
    assert!(composition.get_movement(0).is_none());
    assert!(composition.get_movement(4).is_none());
    assert_eq!(composition.get_movement(3).unwrap().sections[0].bars.len(), 3);
}

#[test]
fn repetition_helpers() {
    let plain = Repetition::new(0, 1, 2);
    assert!(!plain.has_individual_endings());
    assert_eq!(plain.individual_ending_length(), 0);
    let with_end = plain.with_individual_ending_pattern(vec![Bar::new(1, 4, 4), Bar::new(2, 4, 4)]);
    assert!(with_end.has_individual_endings());
    assert_eq!(with_end.individual_ending_length(), 2);
    let empty_end = Repetition::new(0, 0, 1).with_individual_ending_pattern(vec![]);
    assert!(empty_end.has_individual_endings());
    assert_eq!(empty_end.individual_ending_length(), 0);
}

#[test]
fn movement_section_lookup_is_one_based() {
    let mut m = Movement::new("M".to_string());
    m.add_section(Section::new("First".to_string()));
    m.add_section(Section::new("Second".to_string()));
    assert!(m.get_section(0).is_none());
    assert_eq!(m.get_section(2).unwrap().name, "Second");
    assert!(m.get_section(3).is_none());
}

#[test]
fn lookup_agrees_with_performance_order() {
    let mut composition = Composition::new("C".to_string(), "W".to_string());
    let mut m = Movement::new("M".to_string());
    let mut a = Section::new("A".to_string());
    a.add_bar(Bar::new(1, 4, 4));
    m.add_section(a);
    let mut b = Section::new("B".to_string());
    b.add_bar(Bar::new(2, 4, 4));
    b.add_repetition(Repetition::new(0, 1, 1).with_individual_ending_pattern(vec![Bar::new(1, 2, 4)]));
    m.add_section(b);
    composition.add_movement(m);

    let sequence = composition.movements[0].generate_bar_sequence();
    let bar_ref = BarReference::new(&composition);
    assert_eq!(bar_ref.total_bars(), sequence.len());
    for (i, bar) in sequence.iter().enumerate() {
        let refs = bar_ref.get_bar_objects(i + 1).unwrap();
        if bar.is_individual_ending {
            assert_eq!(format!("{} (Ending 1)", refs.section.name), bar.section_name);
        } else {
            assert_eq!(refs.section.name, bar.section_name);
        }
        assert_eq!(refs.repetition_index, bar.repetition_index);
        assert_eq!(refs.is_individual_ending, bar.is_individual_ending);
    }
    assert!(bar_ref.get_bar_objects(0).is_none());
}

#[test]
fn repetition_bars_name_their_repetition() {
    let mut movement = Movement::new("M".to_string());
    let mut a = Section::new("A".to_string());
    a.add_bar(Bar::new(1, 4, 4));
    movement.add_section(a);
    let mut b = Section::new("B".to_string());
    b.add_bar(Bar::new(2, 4, 4));
    b.add_repetition(Repetition::new(0, 5, 2).with_individual_ending_pattern(vec![Bar::new(1, 2, 4)]));
    movement.add_section(b);
    let sequence = movement.generate_bar_sequence();
    // 2 own bars + 2 passes * (2 replayed bars + 1 ending bar)
    assert_eq!(sequence.len(), 8);
    assert_eq!(movement.total_bar_count(), 8);
    for bar in &sequence {
        assert_eq!(bar.is_repetition, bar.repetition_index.is_some());
    }
}
