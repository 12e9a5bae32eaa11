use flex_metro_core::meter::{beat_slots, BarMeter, BeatType};

fn meter(nom: i32, denom: i32, groups: Vec<i32>) -> BarMeter {
    BarMeter { nom, denom, groups }
}

#[test]
fn test_musical_timing_calculation() {
    let bars = vec![meter(4, 4, vec![2, 2]), meter(6, 8, vec![3, 3]), meter(4, 4, vec![2, 2])];
    let slots = beat_slots(&bars);
    let major_beats = slots.iter().filter(|e| e.beat_type == BeatType::Major).count();
    assert_eq!(major_beats, 3, "Should have exactly 3 Major beats (one per bar)");
}

#[test]
fn slots_follow_groups() {
    let bars = vec![meter(5, 8, vec![3, 2]), meter(2, 4, vec![2])];
    let slots = beat_slots(&bars);
    assert_eq!(slots.len(), 7);
    let kinds: Vec<BeatType> = slots.iter().map(|s| s.beat_type).collect();
    assert_eq!(
        kinds,
        vec![
            BeatType::Major,
            BeatType::Minor,
            BeatType::Minor,
            BeatType::Medium,
            BeatType::Minor,
            BeatType::Major,
            BeatType::Minor
        ]
    );
    assert_eq!(slots[3].bar_index, 0);
    assert_eq!(slots[3].beat_in_bar, 1);
    assert_eq!(slots[3].subbeat_in_beat, 3);
    assert_eq!((slots[5].bar_index, slots[5].nom, slots[5].denom), (1, 2, 4));
}

#[test]
fn empty_groups_give_no_beats() {
    let bars = vec![meter(0, 0, vec![]), meter(3, 4, vec![0, 3])];
    let slots = beat_slots(&bars);
    assert_eq!(slots.len(), 3);
    assert_eq!(slots[0].bar_index, 1);
    assert_eq!(slots[0].beat_type, BeatType::Major);
    assert_eq!(slots[0].beat_in_bar, 1);
}
