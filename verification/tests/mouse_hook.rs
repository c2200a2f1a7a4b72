use webkeylayer_backend::mouse_hook::{MouseDirection, MouseMotionEvent, MouseState};

#[test]
fn maps_delta_to_eight_way_direction() {
    assert_eq!(MouseDirection::from_delta(0, -4), MouseDirection::Up);
    assert_eq!(MouseDirection::from_delta(0, 4), MouseDirection::Down);
    assert_eq!(MouseDirection::from_delta(-3, 0), MouseDirection::Left);
    assert_eq!(MouseDirection::from_delta(3, 0), MouseDirection::Right);
    assert_eq!(MouseDirection::from_delta(10, 1), MouseDirection::Right);
    assert_eq!(MouseDirection::from_delta(1, -10), MouseDirection::Up);
    assert_eq!(MouseDirection::from_delta(-2, -1), MouseDirection::UpLeft);
    assert_eq!(MouseDirection::from_delta(2, -1), MouseDirection::UpRight);
    assert_eq!(MouseDirection::from_delta(-2, 1), MouseDirection::DownLeft);
    assert_eq!(MouseDirection::from_delta(2, 1), MouseDirection::DownRight);
    assert_eq!(MouseDirection::from_delta(0, 0), MouseDirection::Idle);
}

#[test]
fn emits_motion_only_when_direction_changes_or_enters_idle() {
    let mut state = MouseState::new();

    assert_eq!(state.process_sample(100, 100), None);
    assert_eq!(
        state.process_sample(110, 100),
        Some(MouseMotionEvent::DirectionChanged {
            dx: 10,
            dy: 0,
            direction: MouseDirection::Right,
        })
    );
    assert_eq!(state.process_sample(120, 100), None);
    assert_eq!(state.process_sample(120, 100), Some(MouseMotionEvent::Idle));
    assert_eq!(state.process_sample(120, 100), None);
    assert_eq!(
        state.process_sample(116, 96),
        Some(MouseMotionEvent::DirectionChanged {
            dx: -4,
            dy: -4,
            direction: MouseDirection::UpLeft,
        })
    );
}

#[test]
fn keeps_previous_direction_inside_boundary_hysteresis() {
    let mut state = MouseState::new();

    assert_eq!(state.process_sample(0, 0), None);
    assert_eq!(
        state.process_sample(10, 4),
        Some(MouseMotionEvent::DirectionChanged {
            dx: 10,
            dy: 4,
            direction: MouseDirection::Right,
        })
    );
    assert_eq!(state.process_sample(20, 9), None);
    assert_eq!(
        state.process_sample(30, 19),
        Some(MouseMotionEvent::DirectionChanged {
            dx: 10,
            dy: 10,
            direction: MouseDirection::DownRight,
        })
    );
}

#[test]
fn accumulates_short_jitter_before_judging_direction() {
    let mut state = MouseState::new();

    assert_eq!(state.process_sample(0, 0), None);
    assert_eq!(state.process_sample(1, 1), None);
    assert_eq!(
        state.process_sample(5, 1),
        Some(MouseMotionEvent::DirectionChanged {
            dx: 5,
            dy: 1,
            direction: MouseDirection::Right,
        })
    );
}
