use chipeite::memory::key_state::{Key, KeyState};

fn all_keys() -> [Key; 16] {
    [
        Key::Zero,
        Key::One,
        Key::Two,
        Key::Three,
        Key::Four,
        Key::Five,
        Key::Six,
        Key::Seven,
        Key::Eight,
        Key::Nine,
        Key::A,
        Key::B,
        Key::C,
        Key::D,
        Key::E,
        Key::F,
    ]
}

#[test]
fn setting_and_getting_it_works() {
    let mut keystate = KeyState::default();
    for k in all_keys() {
        keystate.set(k);
        assert!(keystate.is_set(k));
    }
}

#[test]
fn clearing_a_works() {
    let mut keystate = KeyState(0xFF);
    for k in all_keys() {
        keystate.unset(k);
        assert!(!keystate.is_set(k));
    }
}

#[test]
fn setting_leaves_other_keys_alone() {
    let mut keystate = KeyState::default();
    keystate.set(Key::Seven);
    assert!(keystate.is_set(Key::Seven));
    for k in all_keys() {
        if !matches!(k, Key::Seven) {
            assert!(!keystate.is_set(k));
        }
    }
    keystate.unset(Key::Seven);
    assert_eq!(keystate, KeyState(0));
}

#[test]
fn key_values_round_trip() {
    for (i, k) in all_keys().iter().enumerate() {
        assert_eq!(k.value(), i as u8);
        assert_eq!(Key::from_value(i as u8).value(), i as u8);
    }
}

#[test]
fn selector_picks_one_bit_per_key() {
    assert_eq!(Key::Zero.selector(), 0x8000);
    assert_eq!(Key::F.selector(), 0x0001);
    assert_eq!(Key::Seven.selector(), 0x0100);
}
