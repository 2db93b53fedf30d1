use grass_rs::input::{key_action, Key, KeyAction};
use grass_rs::movement::{Direction, Flags};

#[test]
fn flags_start_empty() {
    let f = Flags::empty();
    assert_eq!(f.bits, 0);
    for d in [Direction::Forward, Direction::Backward, Direction::Left, Direction::Right, Direction::Up, Direction::Down] {
        assert!(!f.contains(d));
    }
}

#[test]
fn flags_bits_per_direction() {
    let all = [
        (Direction::Forward, 1u8),
        (Direction::Backward, 2),
        (Direction::Left, 4),
        (Direction::Right, 8),
        (Direction::Up, 16),
        (Direction::Down, 32),
    ];
    for (d, bit) in all {
        let mut f = Flags::empty();
        f.set(d, true);
        assert_eq!(f.bits, bit);
    }
}

#[test]
fn flags_set_and_clear_leave_others() {
    let mut f = Flags::empty();
    f.set(Direction::Forward, true);
    f.set(Direction::Left, true);
    assert!(f.contains(Direction::Forward));
    assert!(f.contains(Direction::Left));
    assert!(!f.contains(Direction::Up));
    f.set(Direction::Forward, false);
    assert!(!f.contains(Direction::Forward));
    assert!(f.contains(Direction::Left));
    assert_eq!(f.bits, 4);
    f.set(Direction::Left, true);
    assert_eq!(f.bits, 4);
}

#[test]
fn movement_keys_steer() {
    assert_eq!(key_action(Key::W, true, false), KeyAction::Steer(Direction::Forward, true));
    assert_eq!(key_action(Key::S, false, false), KeyAction::Steer(Direction::Backward, false));
    assert_eq!(key_action(Key::A, true, true), KeyAction::Steer(Direction::Left, true));
    assert_eq!(key_action(Key::D, true, false), KeyAction::Steer(Direction::Right, true));
    assert_eq!(key_action(Key::Q, true, false), KeyAction::Steer(Direction::Down, true));
    assert_eq!(key_action(Key::E, false, false), KeyAction::Steer(Direction::Up, false));
}

#[test]
fn escape_toggles_cursor_on_press() {
    assert_eq!(key_action(Key::Escape, true, false), KeyAction::ToggleCursor);
    assert_eq!(key_action(Key::Escape, false, false), KeyAction::Report);
}

#[test]
fn alt_f4_exits() {
    assert_eq!(key_action(Key::F4, true, true), KeyAction::Exit);
    assert_eq!(key_action(Key::F4, true, false), KeyAction::Ignore);
    assert_eq!(key_action(Key::F4, false, true), KeyAction::Report);
}

#[test]
fn other_keys() {
    assert_eq!(key_action(Key::F, true, false), KeyAction::Ignore);
    assert_eq!(key_action(Key::Other, true, false), KeyAction::Report);
}

#[test]
fn held_key_moves_until_released() {
    let mut f = Flags::empty();
    for (key, pressed) in [(Key::W, true), (Key::D, true), (Key::W, false)] {
        if let KeyAction::Steer(d, on) = key_action(key, pressed, false) {
            f.set(d, on);
        }
    }
    assert!(!f.contains(Direction::Forward));
    assert!(f.contains(Direction::Right));
}
