use flex_metro_core::composition::{Bar, Composition, Movement, Repetition, Section};
use flex_metro_core::reader::{u32_is_power_of_two, CompositionReader, CompositionReaderError};
use flex_metro_core::tempo::Tempo;
use flex_metro_core::yaml_form::{YamlComposition, YamlMovement, YamlRepetition, YamlSection};

fn bpm(v: f64) -> Tempo {
    Tempo::from_bits(v.to_bits())
}

fn bar(number: usize, numerator: u32, denominator: u32) -> Bar {
    Bar::new(number, numerator, denominator)
}

fn validation_message(r: Result<Composition, CompositionReaderError>) -> String {
    match r {
        Err(CompositionReaderError::ValidationError(m)) => m,
        Err(e) => panic!("unexpected error {:?}", e),
        Ok(_) => panic!("expected a validation error"),
    }
}

fn one_section(section: YamlSection) -> YamlComposition {
    YamlComposition {
        composer_name: "Test Composer".to_string(),
        work_name: "Test Work".to_string(),
        movements: vec![YamlMovement {
            name: "Movement 1".to_string(),
            tempo_bpm: None,
            sections: vec![section],
        }],
    }
}

#[test]
fn test_read_valid_yaml() {
    let yaml = YamlComposition {
        composer_name: "Johann Sebastian Bach".to_string(),
        work_name: "Brandenburg Concerto No. 1".to_string(),
        movements: vec![YamlMovement {
            name: "I. Allegro".to_string(),
            tempo_bpm: Some(bpm(120.0)),
            sections: vec![
                YamlSection {
                    name: "Exposition".to_string(),
                    tempo_bpm: None,
                    bars: vec![bar(1, 4, 4), bar(2, 4, 4)],
                    repetitions: vec![],
                },
                YamlSection {
                    name: "Development".to_string(),
                    tempo_bpm: None,
                    bars: vec![bar(3, 4, 4)],
                    repetitions: vec![YamlRepetition {
                        start_section: 1,
                        end_section: 1,
                        num_repetitions: 2,
                        individual_ending_pattern: Some(vec![
                            bar(1, 4, 4).with_name("first ending".to_string())
                        ]),
                    }],
                },
            ],
        }],
    };

    let composition = CompositionReader::read_from_yaml(yaml)
        .expect("Failed to read valid YAML content in test");

    assert_eq!(composition.composer_name, "Johann Sebastian Bach");
    assert_eq!(composition.work_name, "Brandenburg Concerto No. 1");
    assert_eq!(composition.movements.len(), 1);
    assert_eq!(composition.movements[0].sections.len(), 2);
    let rep = &composition.movements[0].sections[1].repetitions[0];
    assert_eq!((rep.start_section, rep.end_section), (0, 0));
}

#[test]
fn test_validation_errors() {
    let yaml = YamlComposition {
        composer_name: "".to_string(),
        work_name: "Test Work".to_string(),
        movements: vec![],
    };
    assert!(CompositionReader::read_from_yaml(yaml).is_err());

    let yaml = one_section(YamlSection {
        name: "Section 1".to_string(),
        tempo_bpm: None,
        bars: vec![bar(1, 0, 4)],
        repetitions: vec![],
    });
    assert!(CompositionReader::read_from_yaml(yaml).is_err());
}

#[test]
fn test_yaml_round_trip() {
    let mut composition = Composition::new("Test Composer".to_string(), "Test Symphony".to_string());

    let mut movement = Movement::new("I. Allegro".to_string()).with_tempo(bpm(120.0));
    let mut section = Section::new("Theme".to_string());
    section.add_bar(Bar::new(1, 4, 4));
    section.add_bar(Bar::new(2, 4, 4));

    let repetition = Repetition::new(0, 0, 1);
    section.add_repetition(repetition);

    movement.add_section(section);
    composition.add_movement(movement);

    let yaml = CompositionReader::to_yaml(&composition);
    assert_eq!(yaml.movements[0].sections[0].repetitions[0].start_section, 1);

    let read_composition = CompositionReader::read_from_yaml(yaml)
        .expect("Failed to read composition from generated YAML in test");

    assert_eq!(composition.composer_name, read_composition.composer_name);
    assert_eq!(composition.work_name, read_composition.work_name);
    assert_eq!(composition.movements.len(), read_composition.movements.len());

    let original_movement = &composition.movements[0];
    let read_movement = &read_composition.movements[0];
    assert_eq!(original_movement.name, read_movement.name);
    assert_eq!(original_movement.total_bar_count(), read_movement.total_bar_count());
    assert_eq!(read_movement.tempo_bpm, Some(bpm(120.0)));
}

#[test]
fn composition_level_messages() {
    let empty_work = YamlComposition {
        composer_name: "C".to_string(),
        work_name: "".to_string(),
        movements: vec![],
    };
    assert_eq!(
        validation_message(CompositionReader::read_from_yaml(empty_work)),
        "Work name cannot be empty"
    );
    let empty_composer = YamlComposition {
        composer_name: "".to_string(),
        work_name: "W".to_string(),
        movements: vec![],
    };
    assert_eq!(
        validation_message(CompositionReader::read_from_yaml(empty_composer)),
        "Composer name cannot be empty"
    );
    let no_movements = YamlComposition {
        composer_name: "C".to_string(),
        work_name: "W".to_string(),
        movements: vec![],
    };
    assert_eq!(
        validation_message(CompositionReader::read_from_yaml(no_movements)),
        "Composition must have at least one movement"
    );
}

#[test]
fn movement_and_section_messages() {
    let negative_tempo = YamlComposition {
        composer_name: "C".to_string(),
        work_name: "W".to_string(),
        movements: vec![YamlMovement {
            name: "Slow".to_string(),
            tempo_bpm: Some(bpm(-3.0)),
            sections: vec![],
        }],
    };
    assert_eq!(
        validation_message(CompositionReader::read_from_yaml(negative_tempo)),
        "Movement 'Slow' tempo must be positive"
    );

    let no_sections = YamlComposition {
        composer_name: "C".to_string(),
        work_name: "W".to_string(),
        movements: vec![YamlMovement { name: "Empty".to_string(), tempo_bpm: None, sections: vec![] }],
    };
    assert_eq!(
        validation_message(CompositionReader::read_from_yaml(no_sections)),
        "Movement 'Empty' must have at least one section"
    );

    let no_bars = one_section(YamlSection {
        name: "Intro".to_string(),
        tempo_bpm: Some(bpm(0.0)),
        bars: vec![],
        repetitions: vec![],
    });
    assert_eq!(
        validation_message(CompositionReader::read_from_yaml(no_bars)),
        "Section 'Intro' tempo must be positive"
    );

    let bad_denominator = one_section(YamlSection {
        name: "S".to_string(),
        tempo_bpm: None,
        bars: vec![bar(1, 4, 4), bar(2, 3, 6)],
        repetitions: vec![],
    });
    assert_eq!(
        validation_message(CompositionReader::read_from_yaml(bad_denominator)),
        "Bar 2 denominator must be a power of 2"
    );
}

#[test]
fn repetition_messages() {
    let out_of_range = one_section(YamlSection {
        name: "S".to_string(),
        tempo_bpm: None,
        bars: vec![bar(1, 4, 4)],
        repetitions: vec![YamlRepetition {
            start_section: 1,
            end_section: 3,
            num_repetitions: 1,
            individual_ending_pattern: None,
        }],
    });
    assert_eq!(
        validation_message(CompositionReader::read_from_yaml(out_of_range)),
        "Repetition 1 end_section (internal: 2, YAML: 3) exceeds available sections (1)"
    );

    let zero_times = one_section(YamlSection {
        name: "S".to_string(),
        tempo_bpm: None,
        bars: vec![bar(1, 4, 4)],
        repetitions: vec![YamlRepetition {
            start_section: 1,
            end_section: 1,
            num_repetitions: 0,
            individual_ending_pattern: None,
        }],
    });
    assert_eq!(
        validation_message(CompositionReader::read_from_yaml(zero_times)),
        "Repetition 1 num_repetitions cannot be zero"
    );
}

#[test]
fn overlap_is_reported_for_the_first_pair() {
    let reps = vec![Repetition::new(0, 1, 1), Repetition::new(3, 4, 1), Repetition::new(1, 2, 1)];
    match CompositionReader::check_repetition_overlaps(&reps) {
        Err(CompositionReaderError::ValidationError(m)) => {
            assert_eq!(m, "Repetitions 1 and 3 have overlapping section ranges")
        }
        _ => panic!("expected an overlap"),
    }
    let apart = vec![Repetition::new(0, 1, 1), Repetition::new(2, 2, 1)];
    assert!(CompositionReader::check_repetition_overlaps(&apart).is_ok());
}

#[test]
fn single_validators() {
    assert!(CompositionReader::validate_bar(&bar(1, 7, 8), 0).is_ok());
    match CompositionReader::validate_bar(&bar(1, 7, 0), 4) {
        Err(CompositionReaderError::ValidationError(m)) => {
            assert_eq!(m, "Bar 5 denominator cannot be zero")
        }
        _ => panic!("expected an error"),
    }
    match CompositionReader::validate_repetition(&Repetition::new(2, 1, 1), 0, 3) {
        Err(CompositionReaderError::ValidationError(m)) => {
            assert_eq!(m, "Repetition 1 start_section (3) cannot be greater than end_section (2)")
        }
        _ => panic!("expected an error"),
    }
    match CompositionReader::validate_repetition(&Repetition::new(5, 5, 1), 1, 3) {
        Err(CompositionReaderError::ValidationError(m)) => assert_eq!(
            m,
            "Repetition 2 start_section (internal: 5, YAML: 6) exceeds available sections (3)"
        ),
        _ => panic!("expected an error"),
    }
    let mut s = Section::new("".to_string());
    s.add_bar(bar(1, 4, 4));
    match CompositionReader::validate_section(&s, 2, 3) {
        Err(CompositionReaderError::ValidationError(m)) => {
            assert_eq!(m, "Section 3 name cannot be empty")
        }
        _ => panic!("expected an error"),
    }
    let m = Movement::new("".to_string());
    match CompositionReader::validate_movement(&m, 0) {
        Err(CompositionReaderError::ValidationError(msg)) => {
            assert_eq!(msg, "Movement 1 name cannot be empty")
        }
        _ => panic!("expected an error"),
    }
}

#[test]
fn power_of_two_check() {
    assert!(u32_is_power_of_two(1));
    assert!(u32_is_power_of_two(64));
    assert!(!u32_is_power_of_two(0));
    assert!(!u32_is_power_of_two(12));
}

#[test]
fn overlap_check_ignores_order() {
    let a = vec![Repetition::new(0, 1, 1), Repetition::new(2, 3, 1), Repetition::new(1, 1, 1)];
    let b = vec![Repetition::new(1, 1, 1), Repetition::new(0, 1, 1), Repetition::new(2, 3, 1)];
    assert!(CompositionReader::check_repetition_overlaps(&a).is_err());
    assert!(CompositionReader::check_repetition_overlaps(&b).is_err());
    match CompositionReader::check_repetition_overlaps(&b) {
        Err(CompositionReaderError::ValidationError(m)) => {
            assert_eq!(m, "Repetitions 1 and 2 have overlapping section ranges")
        }
        _ => panic!("expected an overlap"),
    }
}
