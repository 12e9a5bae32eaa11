use flex_metro_core::flutter::{
    beat_type_name, current_bar_slot, get_beat_events, init_flutter_timer, is_timer_running,
    next_bar_metric, start_report, stop_flutter_musical_timer, stop_musical_timer,
    subbeat_position, time_in_bar_ms, BeatEventQueue, FlutterBeatEvent, EVENT_QUEUE_CAPACITY,
};
use flex_metro_core::meter::{beat_slots, BarMeter, BeatType};
use flex_metro_core::tempo_sequence::{
    RepetitionMark, TempoSequenceReader, TempoSequenceWriter, YamlRepetitionData,
};

fn event(position: i32) -> FlutterBeatEvent {
    FlutterBeatEvent {
        current_bar_nom: 4,
        current_bar_denom: 4,
        beat_type: "Minor".to_string(),
        subbeat_position: position,
        next_bar_nom: None,
        next_bar_denom: None,
        current_time_ms: 0,
        bar_duration_ms: Some(2000),
    }
}

#[test]
fn queue_keeps_the_latest_events() {
    let mut queue = BeatEventQueue::new();
    for i in 0..150 {
        queue.push(event(i));
    }
    assert_eq!(queue.len(), EVENT_QUEUE_CAPACITY);
    let events = get_beat_events(&mut queue);
    assert_eq!(events.len(), 100);
    assert_eq!(events[0].subbeat_position, 50);
    assert_eq!(events[99].subbeat_position, 149);
    assert_eq!(queue.len(), 0);
    assert!(get_beat_events(&mut queue).is_empty());
}

#[test]
fn stopping_the_timer() {
    let mut queue = BeatEventQueue::new();
    queue.push(event(1));
    let mut slot: Option<u8> = Some(7);
    let r = stop_musical_timer(&mut slot, Some(Err("Thread panic".to_string())), &mut queue);
    assert_eq!(r, Err("Failed to stop timer: Thread panic".to_string()));
    assert_eq!(slot, Some(7));
    assert_eq!(queue.len(), 1);
    assert_eq!(stop_flutter_musical_timer(r), "Failed to stop timer: Failed to stop timer: Thread panic");

    let r = stop_musical_timer(&mut slot, Some(Ok(())), &mut queue);
    assert_eq!(r, Ok(()));
    assert_eq!(slot, None);
    assert_eq!(queue.len(), 0);
    assert_eq!(stop_flutter_musical_timer(r), "Timer stopped successfully");

    let mut empty: Option<u8> = None;
    assert_eq!(stop_musical_timer(&mut empty, None, &mut queue), Ok(()));
}

#[test]
fn interface_answers() {
    assert_eq!(init_flutter_timer(), Ok(()));
    assert!(is_timer_running(Some(true)));
    assert!(!is_timer_running(Some(false)));
    assert!(!is_timer_running(None));
    assert_eq!(start_report(Ok(())), "Timer started successfully");
    assert_eq!(start_report(Err("no bars".to_string())), "Failed to start timer: no bars");
    assert_eq!(beat_type_name(BeatType::Major), "Major");
    assert_eq!(beat_type_name(BeatType::Medium), "Medium");
    assert_eq!(beat_type_name(BeatType::Minor), "Minor");
}

#[test]
fn event_positions() {
    let positions: Vec<i32> = (0..6).map(subbeat_position).collect();
    assert_eq!(positions, vec![1, 2, 3, 4, 5, 6]);
    let times: Vec<i64> = (0..6).map(|i| time_in_bar_ms(3000, 6, i)).collect();
    assert_eq!(times, vec![0, 500, 1000, 1500, 2000, 2500]);
    assert_eq!(time_in_bar_ms(-7, 2, 1), -3);
    assert_eq!(time_in_bar_ms(7, -2, 2), -6);
    let metrics = vec![(4, 4), (6, 8), (3, 4)];
    assert_eq!(next_bar_metric(&metrics, 0), (Some(6), Some(8)));
    assert_eq!(next_bar_metric(&metrics, 2), (None, None));
    assert_eq!(next_bar_metric(&metrics, usize::MAX), (None, None));
    assert_eq!(current_bar_slot(1, 3), Some(1));
    assert_eq!(current_bar_slot(5, 3), Some(2));
    assert_eq!(current_bar_slot(0, 0), None);
}

#[test]
fn test_simple_sequence_with_repetition() {
    let repetitions = vec![YamlRepetitionData {
        start_interval_index: 1,
        end_interval_index: 2,
        num_reps: 3,
    }];
    let marks = TempoSequenceReader::repetition_marks(3, &repetitions);
    assert_eq!(marks.len(), 3, "Should have 3 intervals");

    let main_interval = &marks[1];
    let bridge_interval = &marks[2];

    assert_eq!(main_interval.repetition_id, 1);
    assert_eq!(main_interval.position_in_repetition, 0);
    assert_eq!(main_interval.total_intervals_in_repetition, 2);

    assert_eq!(bridge_interval.repetition_id, 1);
    assert_eq!(bridge_interval.position_in_repetition, 1);
    assert_eq!(bridge_interval.total_intervals_in_repetition, 2);
}

#[test]
fn test_round_trip_conversion() {
    let marks = TempoSequenceReader::repetition_marks(1, &vec![]);
    let repetitions = TempoSequenceWriter::repetitions_from_marks(&marks);
    let marks2 = TempoSequenceReader::repetition_marks(1, &repetitions);

    assert_eq!(marks.len(), marks2.len());
    assert_eq!(marks[0], marks2[0]);
}

#[test]
fn later_repetitions_win_and_out_of_range_is_ignored() {
    let repetitions = vec![
        YamlRepetitionData { start_interval_index: 0, end_interval_index: 2, num_reps: 2 },
        YamlRepetitionData { start_interval_index: 2, end_interval_index: 9, num_reps: 2 },
    ];
    let marks = TempoSequenceReader::repetition_marks(4, &repetitions);
    assert_eq!(
        marks,
        vec![
            RepetitionMark { repetition_id: 1, position_in_repetition: 0, total_intervals_in_repetition: 3 },
            RepetitionMark { repetition_id: 1, position_in_repetition: 1, total_intervals_in_repetition: 3 },
            RepetitionMark { repetition_id: 2, position_in_repetition: 0, total_intervals_in_repetition: 8 },
            RepetitionMark { repetition_id: 2, position_in_repetition: 1, total_intervals_in_repetition: 8 },
        ]
    );
}

#[test]
fn writer_counts_passes() {
    let none = RepetitionMark { repetition_id: 0, position_in_repetition: 0, total_intervals_in_repetition: 0 };
    let a0 = RepetitionMark { repetition_id: 1, position_in_repetition: 0, total_intervals_in_repetition: 2 };
    let a1 = RepetitionMark { repetition_id: 1, position_in_repetition: 1, total_intervals_in_repetition: 2 };
    let marks = vec![none, a0, a1, a0, a1, none];
    let reps = TempoSequenceWriter::repetitions_from_marks(&marks);
    assert_eq!(
        reps,
        vec![YamlRepetitionData { start_interval_index: 1, end_interval_index: 2, num_reps: 2 }]
    );
}

#[test]
fn repetitions_survive_a_round_trip() {
    let repetitions = vec![
        YamlRepetitionData { start_interval_index: 0, end_interval_index: 1, num_reps: 3 },
        YamlRepetitionData { start_interval_index: 3, end_interval_index: 3, num_reps: 2 },
    ];
    let marks = TempoSequenceReader::repetition_marks(5, &repetitions);
    let written = TempoSequenceWriter::repetitions_from_marks(&marks);
    assert_eq!(
        written,
        vec![
            YamlRepetitionData { start_interval_index: 0, end_interval_index: 1, num_reps: 1 },
            YamlRepetitionData { start_interval_index: 3, end_interval_index: 3, num_reps: 1 },
        ]
    );
    assert_eq!(TempoSequenceReader::repetition_marks(5, &written), marks);
}

#[test]
fn six_eight_positions_run_one_to_six() {
    let slots = beat_slots(&vec![BarMeter { nom: 6, denom: 8, groups: vec![3, 3] }]);
    let positions: Vec<i32> = slots.iter().map(|s| subbeat_position(s.subbeat_in_beat)).collect();
    assert_eq!(positions, vec![1, 2, 3, 4, 5, 6]);
    let names: Vec<String> = slots.iter().map(|s| beat_type_name(s.beat_type)).collect();
    assert_eq!(names, vec!["Major", "Minor", "Minor", "Medium", "Minor", "Minor"]);
}
