use flex_metro_core::composition::{Bar, Composition, Movement, Repetition, Section};
use flex_metro_core::publisher::{
    composition_context, context_changed, PublisherState, SubscriberIds, TimerCommand,
};
use flex_metro_core::section::section_end;
use flex_metro_core::ticker::{
    circle_state_after_tick, fix_subbeat, FMTickPositions, TimerAction, TimerState,
};

fn sample_composition() -> Composition {
    let mut composition = Composition::new("Composer".to_string(), "Work".to_string());
    let mut m1 = Movement::new("I".to_string());
    let mut a = Section::new("A".to_string());
    a.add_bar(Bar::new(1, 4, 4));
    a.add_bar(Bar::new(2, 4, 4));
    m1.add_section(a);
    let mut b = Section::new("B".to_string());
    b.add_bar(Bar::new(3, 3, 4));
    b.add_repetition(Repetition::new(0, 0, 1));
    m1.add_section(b);
    composition.add_movement(m1);
    let mut m2 = Movement::new("II".to_string());
    let mut c = Section::new("C".to_string());
    c.add_bar(Bar::new(1, 2, 4));
    m2.add_section(c);
    composition.add_movement(m2);
    composition
}

#[test]
fn tick_codes_and_subbeats() {
    assert_eq!(FMTickPositions::TNone.code(), 0);
    assert_eq!(FMTickPositions::TMinor.code(), 4);
    assert_eq!(fix_subbeat(3, Some(true)), 4);
    assert_eq!(fix_subbeat(3, None), 3);
    assert_eq!(fix_subbeat(1, Some(true)), 1);
    assert_eq!(circle_state_after_tick(FMTickPositions::TSection), FMTickPositions::TSection);
    assert_eq!(circle_state_after_tick(FMTickPositions::TRest), FMTickPositions::TRest);
    assert_eq!(circle_state_after_tick(FMTickPositions::TMedium), FMTickPositions::TNone);
}

#[test]
fn timer_requests() {
    let mut s = TimerState::new();
    assert_eq!(s.pause(), Err("Timer is not running".to_string()));
    assert_eq!(s.resume(), Err("Timer is not running".to_string()));
    assert_eq!(s.stop(), TimerAction::Idle);
    assert_eq!(s.start(), TimerAction::Spawn);
    assert_eq!(s.start(), TimerAction::Idle);
    assert_eq!(s.pause(), Ok(TimerAction::SignalPause));
    assert_eq!(s.pause(), Ok(TimerAction::Idle));
    assert_eq!(s.resume(), Ok(TimerAction::SignalResume));
    assert_eq!(s.resume(), Ok(TimerAction::Idle));
    assert_eq!(s.stop(), TimerAction::SignalStop);
    assert_eq!(s.finish_stop(false), Err("Thread panic".to_string()));
    assert!(s.is_running);
    assert_eq!(s.pause(), Ok(TimerAction::SignalPause));
    assert_eq!(s.finish_stop(true), Ok(()));
    assert_eq!(s, TimerState { is_running: false, is_paused: false });
    assert_eq!(s.start(), TimerAction::Spawn);
}

#[test]
fn subscriber_numbers() {
    let mut ids = SubscriberIds::new();
    assert_eq!(ids.subscribe(), 1);
    assert_eq!(ids.subscribe(), 2);
    assert_eq!(ids.subscribe(), 3);
    assert!(ids.unsubscribe(2));
    assert!(!ids.unsubscribe(2));
    assert!(!ids.unsubscribe(9));
    assert_eq!(ids.subscribe(), 4);
    assert!(ids.unsubscribe(1));
}

#[test]
fn contexts_follow_bars() {
    let composition = sample_composition();
    let ctx = composition_context(&composition, 3).unwrap();
    assert_eq!(ctx.movement_number, 1);
    assert_eq!(ctx.section_name, "B");
    assert_eq!(ctx.bar_number, 3);
    let ctx = composition_context(&composition, 4).unwrap();
    assert_eq!(ctx.section_name, "A");
    let ctx = composition_context(&composition, 5).unwrap();
    assert_eq!(ctx.movement_number, 1);
    let ctx = composition_context(&composition, 6).unwrap();
    assert_eq!(ctx.movement_number, 2);
    assert_eq!(ctx.movement_name, "II");
    assert_eq!(ctx.composer_name, "Composer");
    assert_eq!(ctx.composition_name, "Work");
    assert!(composition_context(&composition, 7).is_none());
    assert!(composition_context(&composition, 0).is_none());
}

#[test]
fn context_changes_are_told_once() {
    let composition = sample_composition();
    let mut state = PublisherState::new();
    assert_eq!(state.current_bar_number, 1);
    assert!(state.update_context(&composition, 1).is_some());
    assert!(state.update_context(&composition, 2).is_none());
    let told = state.update_context(&composition, 3).unwrap();
    assert_eq!(told.section_name, "B");
    assert!(state.update_context(&composition, 99).is_none());
    assert_eq!(state.last_composition_info.as_ref().unwrap().section_name, "B");
    state.note_beat(4);
    assert_eq!(state.current_bar_number, 5);
    state.reset();
    assert_eq!(state.current_bar_number, 1);
    assert!(state.last_composition_info.is_none());
    let a = composition_context(&composition, 1).unwrap();
    let b = composition_context(&composition, 2).unwrap();
    assert!(!context_changed(&Some(a), &b));
    assert!(context_changed(&None, &b));
    assert_ne!(TimerCommand::Start, TimerCommand::Stop);
}

#[test]
fn section_spans() {
    assert_eq!(section_end(Some(5), 4), Some(8));
    assert_eq!(section_end(Some(1), 1), Some(1));
    assert_eq!(section_end(None, 4), None);
}
