use flex_metro_core::beats::{default_beats_from_text, BeatTable, MetricKey};
use flex_metro_core::composition::{Bar, Composition, Movement, Section};
use flex_metro_core::measure::{MeasureCounter, ScheduleStep};
use flex_metro_core::publisher::{
    context_bar_for, timer_interval_span, PublisherState, TimerCommand, TimerNotice,
};
use flex_metro_core::reader::CompositionReaderError;
use flex_metro_core::tempo_sequence::TempoSequenceWriter;
use flex_metro_core::ticks::{load_ticks_from_str, MetricKeyError};

fn defaults() -> BeatTable {
    default_beats_from_text("4/4: [2, 2]\n3/4: [3]\n")
}

#[test]
fn test_load_ticks() {
    let text = "- key: [1, 2]\n  value: [1]\n- key: [1, 2, 3, 4]\n  value: [8, 9, 10]\n";
    let ticks = match load_ticks_from_str(defaults(), text) {
        Some(Ok(t)) => t,
        other => panic!("Error loading ticks: {:?}", other.map(|r| r.err())),
    };
    assert_eq!(ticks.get(&MetricKey::Standard((1, 2))), Some(&vec![1]));
    assert_eq!(ticks.get(&MetricKey::Composite((vec![1, 2, 3, 4], 4))), Some(&vec![1, 2, 3, 4]));
    assert_eq!(ticks.get(&MetricKey::Standard((4, 4))), Some(&vec![2, 2]));
}

#[test]
fn tick_errors_and_stops() {
    match load_ticks_from_str(defaults(), "- key: [5, 8]\n  value: [2, 2]\n") {
        Some(Err(m)) => assert_eq!(
            m,
            "The sum of the integers in the value must be equal to the first element of the key: Standard((5, 8))"
        ),
        _ => panic!("expected a sum error"),
    }
    match load_ticks_from_str(defaults(), "- key: [-1, 8]\n  value: [-1]\n") {
        Some(Ok(t)) => assert_eq!(t.get(&MetricKey::Standard((-1, 8))), Some(&vec![-1])),
        _ => panic!("expected a table"),
    }
    match load_ticks_from_str(defaults(), "- key: [a, 8]\n  value: [2]\n") {
        Some(Err(m)) => assert_eq!(m, "Invalid key format"),
        _ => panic!("expected a key error"),
    }
    assert!(load_ticks_from_str(defaults(), "- key: []\n  value: [2]\n").is_none());
    assert!(load_ticks_from_str(defaults(), "- key: [2, 4]\n  value: [x]\n").is_none());
    assert!(load_ticks_from_str(defaults(), "- key: [2, 4]\n  value: [2147483647, 1]\n").is_none());
    match load_ticks_from_str(defaults(), "- other: 1\n- key: [3, 4]\n  value: [1, 2]\n") {
        Some(Ok(t)) => assert_eq!(t.get(&MetricKey::Standard((3, 4))), Some(&vec![1, 2])),
        _ => panic!("expected a table"),
    }
    match load_ticks_from_str(defaults(), "key: [3, 4]\n") {
        Some(Ok(t)) => assert_eq!(t.get(&MetricKey::Standard((3, 4))), Some(&vec![3])),
        _ => panic!("a mapping document adds nothing"),
    }
    match load_ticks_from_str(defaults(), "- [unclosed\n") {
        Some(Err(m)) => assert!(!m.is_empty()),
        _ => panic!("expected a scanner error"),
    }
}

#[test]
fn metric_keys_from_elements() {
    assert_eq!(MetricKey::from_elements(vec![3, 4]), Ok(MetricKey::Standard((3, 4))));
    assert_eq!(MetricKey::from_elements(vec![2, 3, 8]), Ok(MetricKey::Composite((vec![2, 3], 8))));
    assert_eq!(MetricKey::from_elements(vec![4]), Err(MetricKeyError::InvalidLength(1)));
    assert_eq!(MetricKey::from_elements(vec![]), Err(MetricKeyError::InvalidLength(0)));
    assert_eq!(MetricKey::from_elements(vec![6, 12]), Err(MetricKeyError::BadDenominator));
    assert_eq!(MetricKey::from_elements(vec![6, 512]), Err(MetricKeyError::BadDenominator));
    assert_eq!(MetricKey::from_elements(vec![6, 256]), Ok(MetricKey::Standard((6, 256))));
}

#[test]
fn table_copies_and_yaml_beats() {
    let table = defaults();
    let copy = table.copy();
    assert_eq!(copy.get(&MetricKey::Standard((4, 4))), Some(&vec![2, 2]));
    assert_eq!(TempoSequenceWriter::beats_for_yaml(4, 4, &vec![2, 2], &table), None);
    assert_eq!(TempoSequenceWriter::beats_for_yaml(4, 4, &vec![1, 3], &table), Some(vec![1, 3]));
    assert_eq!(TempoSequenceWriter::beats_for_yaml(5, 4, &vec![5], &table), Some(vec![5]));
}

#[test]
fn measure_counter_steps() {
    let mut c = MeasureCounter::new();
    assert_eq!(c.schedule(1, 2, 2), ScheduleStep::Wait(0));
    assert_eq!((c.cnt_beat, c.beat_idx, c.cnt_measure), (1, 1, 0));
    assert_eq!(c.schedule(1, 2, 2), ScheduleStep::Wait(1));
    assert_eq!((c.cnt_beat, c.beat_idx, c.cnt_measure), (0, 2, 1));
    assert_eq!(c.schedule(1, 2, 2), ScheduleStep::Wait(2));
    assert_eq!(c.schedule(1, 2, 2), ScheduleStep::Wait(3));
    assert_eq!(c.cnt_measure, 2);
    assert_eq!(c.schedule(1, 2, 2), ScheduleStep::NextSection);
    assert_eq!((c.cnt_section, c.cnt_measure), (1, 0));
    assert!(!c.stop);
    assert_eq!(c.schedule(1, 2, 2), ScheduleStep::Cancelled);
    assert!(c.stop);
    let mut d = MeasureCounter::new();
    d.cancel();
    assert!(d.stop);
}

#[test]
fn publisher_commands() {
    assert_eq!(context_bar_for(TimerCommand::Start, true, 7), Some(1));
    assert_eq!(context_bar_for(TimerCommand::Resume, true, 7), Some(7));
    assert_eq!(context_bar_for(TimerCommand::Pause, true, 7), None);
    assert_eq!(context_bar_for(TimerCommand::Resume, false, 7), None);
    assert_eq!(timer_interval_span(3), Ok((0, 2)));
    assert_eq!(
        timer_interval_span(0),
        Err("Tempo sequence must contain at least one interval".to_string())
    );

    let mut composition = Composition::new("C".to_string(), "W".to_string());
    let mut m = Movement::new("M".to_string());
    let mut s = Section::new("S".to_string());
    s.add_bar(Bar::new(1, 4, 4));
    s.add_bar(Bar::new(2, 4, 4));
    m.add_section(s);
    composition.add_movement(m);

    let mut state = PublisherState::new();
    assert!(state.on_beat(Some(&composition), 0).is_some());
    assert!(state.on_beat(Some(&composition), 1).is_none());
    assert_eq!(state.current_bar_number, 2);
    assert!(state.on_beat(None, 5).is_none());
    assert_eq!(state.current_bar_number, 6);
    assert_eq!(
        state.finish_command(TimerCommand::Pause, Err("Timer is not running".to_string())),
        Err("Timer is not running".to_string())
    );
    assert_eq!(state.current_bar_number, 6);
    assert_eq!(state.finish_command(TimerCommand::Resume, Ok(())), Ok(TimerNotice::Resumed));
    assert_eq!(state.finish_command(TimerCommand::Stop, Ok(())), Ok(TimerNotice::Stopped));
    assert_eq!(state.current_bar_number, 1);
    assert!(state.last_composition_info.is_none());
}

#[test]
fn reader_error_messages() {
    assert_eq!(
        CompositionReaderError::FileNotFound("a.yaml".to_string()).message(),
        "File not found: a.yaml"
    );
    assert_eq!(CompositionReaderError::InvalidYaml("bad".to_string()).message(), "Invalid YAML: bad");
    assert_eq!(
        CompositionReaderError::ValidationError("x".to_string()).message(),
        "Validation error: x"
    );
    let io = std::io::Error::new(std::io::ErrorKind::Other, "disk");
    let e: CompositionReaderError = io.into();
    assert_eq!(e.message(), "IO error: disk");
}

#[test]
fn test_fm_measure_timer_start() {
    let mut counter = MeasureCounter::new();
    let step = counter.schedule(1, 2, 4);

    assert_eq!(step, ScheduleStep::Wait(0));
    assert_eq!(counter.cnt_beat, 1);
    assert_eq!(counter.beat_idx, 1);
    assert_eq!(counter.cnt_measure, 0);
    assert!(!counter.stop);
}

#[test]
fn test_fm_measure_timer_cancel() {
    let mut counter = MeasureCounter::new();

    counter.cancel();

    assert!(counter.stop);
}
