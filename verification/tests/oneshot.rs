use keypad_drivers::key::Key;
use keypad_drivers::oneshot::OneShot;

#[test]
fn held_key_fires_exactly_once_and_refires_after_release() {
    let readings = [Some(Key::Zero), Some(Key::Zero), None, Some(Key::One)];
    let mut latch = OneShot::new();
    let fired: Vec<Option<Key>> = readings.iter().map(|r| latch.on_poll(*r)).collect();
    assert_eq!(fired, vec![Some(Key::Zero), None, None, Some(Key::One)]);
    let zero_fires = fired.iter().filter(|f| **f == Some(Key::Zero)).count();
    let one_fires = fired.iter().filter(|f| **f == Some(Key::One)).count();
    assert_eq!(zero_fires, 1);
    assert_eq!(one_fires, 1);
}

#[test]
fn switching_keys_without_release_fires_the_new_key() {
    let mut latch = OneShot::new();
    assert_eq!(latch.on_poll(Some(Key::Four)), Some(Key::Four));
    assert_eq!(latch.on_poll(Some(Key::Seven)), Some(Key::Seven));
    assert_eq!(latch.on_poll(Some(Key::Seven)), None);
}

#[test]
fn release_resets_so_the_same_key_can_fire_again() {
    let mut latch = OneShot::new();
    assert_eq!(latch.on_poll(Some(Key::A)), Some(Key::A));
    assert_eq!(latch.on_poll(None), None);
    assert_eq!(latch.on_poll(Some(Key::A)), Some(Key::A));
}
