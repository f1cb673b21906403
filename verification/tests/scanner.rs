use keypad_drivers::key::{key_at, Key};
use keypad_drivers::scanner::{ContactMatrix, KeyPad};

#[test]
fn poll_idle_grid_returns_none() {
    let m = ContactMatrix::new();
    let mut kp = KeyPad::new();
    assert_eq!(kp.poll(&m), None);
}

#[test]
fn each_position_polls_its_own_key() {
    let mut kp = KeyPad::new();
    for row in 0..4 {
        for col in 0..4 {
            let mut m = ContactMatrix::new();
            m.set(row, col, true);
            assert_eq!(kp.poll(&m), Some(key_at(row, col)));
        }
    }
}

#[test]
fn mapping_is_injective_over_all_positions() {
    let mut seen: Vec<Key> = Vec::new();
    let mut kp = KeyPad::new();
    for row in 0..4 {
        for col in 0..4 {
            let mut m = ContactMatrix::new();
            m.set(row, col, true);
            let key = kp.poll(&m).unwrap();
            for earlier in &seen {
                assert_ne!(*earlier, key);
            }
            seen.push(key);
        }
    }
    assert_eq!(seen.len(), 16);
}

#[test]
fn observed_application_keys_sit_where_documented() {
    assert_eq!(key_at(0, 0), Key::Zero);
    assert_eq!(key_at(0, 1), Key::One);
    assert_eq!(key_at(0, 2), Key::Two);
    assert_eq!(key_at(0, 3), Key::Three);
    assert_eq!(key_at(1, 0), Key::Four);
    assert_eq!(key_at(1, 1), Key::Five);
    assert_eq!(key_at(1, 2), Key::Six);
    assert_eq!(key_at(1, 3), Key::Seven);
    assert_eq!(key_at(2, 2), Key::A);
}

#[test]
fn two_rows_active_lower_row_wins() {
    let mut m = ContactMatrix::new();
    m.set(2, 1, true);
    m.set(0, 3, true);
    let mut kp = KeyPad::new();
    assert_eq!(kp.poll(&m), Some(Key::Three));
}

#[test]
fn two_columns_in_one_row_lower_column_wins() {
    let mut m = ContactMatrix::new();
    m.set(1, 3, true);
    m.set(1, 1, true);
    let mut kp = KeyPad::new();
    assert_eq!(kp.poll(&m), Some(Key::Five));
}

#[test]
fn poll_reports_every_call_while_held_and_none_on_release() {
    let mut m = ContactMatrix::new();
    m.set(3, 0, true);
    let mut kp = KeyPad::new();
    assert_eq!(kp.poll(&m), Some(Key::C));
    assert_eq!(kp.poll(&m), Some(Key::C));
    m.set(3, 0, false);
    assert_eq!(kp.poll(&m), None);
}
