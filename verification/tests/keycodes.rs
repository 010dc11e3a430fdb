use ruffle_android::keycodes::{
    android_key_event_to_ruffle_key_descriptor, KeyDescriptor, KeyLocation, LogicalKey, NamedKey,
    PhysicalKey,
};

fn descriptor(logical_key: LogicalKey, key_location: KeyLocation) -> Option<KeyDescriptor> {
    Some(KeyDescriptor { physical_key: PhysicalKey::Unknown, logical_key, key_location })
}

#[test]
fn letters_digits_and_named_keys() {
    assert_eq!(
        android_key_event_to_ruffle_key_descriptor(29),
        descriptor(LogicalKey::Character('a'), KeyLocation::Standard)
    );
    assert_eq!(
        android_key_event_to_ruffle_key_descriptor(54),
        descriptor(LogicalKey::Character('z'), KeyLocation::Standard)
    );
    assert_eq!(
        android_key_event_to_ruffle_key_descriptor(7),
        descriptor(LogicalKey::Character('0'), KeyLocation::Standard)
    );
    assert_eq!(
        android_key_event_to_ruffle_key_descriptor(19),
        descriptor(LogicalKey::Named(NamedKey::ArrowUp), KeyLocation::Standard)
    );
    assert_eq!(
        android_key_event_to_ruffle_key_descriptor(67),
        descriptor(LogicalKey::Named(NamedKey::Backspace), KeyLocation::Standard)
    );
    assert_eq!(
        android_key_event_to_ruffle_key_descriptor(142),
        descriptor(LogicalKey::Named(NamedKey::F12), KeyLocation::Standard)
    );
    assert_eq!(
        android_key_event_to_ruffle_key_descriptor(73),
        descriptor(LogicalKey::Character('\\'), KeyLocation::Standard)
    );
}

#[test]
fn left_and_right_modifiers_differ_only_in_location() {
    for (left, key) in [(57, NamedKey::Alt), (59, NamedKey::Shift), (113, NamedKey::Control)] {
        assert_eq!(
            android_key_event_to_ruffle_key_descriptor(left),
            descriptor(LogicalKey::Named(key), KeyLocation::Left)
        );
        assert_eq!(
            android_key_event_to_ruffle_key_descriptor(left + 1),
            descriptor(LogicalKey::Named(key), KeyLocation::Right)
        );
    }
}

#[test]
fn numpad_keys_are_located_on_the_numpad() {
    for d in 0..10u32 {
        let digit = char::from_digit(d, 10).unwrap();
        assert_eq!(
            android_key_event_to_ruffle_key_descriptor(144 + d),
            descriptor(LogicalKey::Character(digit), KeyLocation::Numpad)
        );
        assert_eq!(
            android_key_event_to_ruffle_key_descriptor(7 + d),
            descriptor(LogicalKey::Character(digit), KeyLocation::Standard)
        );
    }
    assert_eq!(
        android_key_event_to_ruffle_key_descriptor(160),
        descriptor(LogicalKey::Named(NamedKey::Enter), KeyLocation::Numpad)
    );
    assert_eq!(
        android_key_event_to_ruffle_key_descriptor(143),
        descriptor(LogicalKey::Named(NamedKey::NumLock), KeyLocation::Numpad)
    );
}

#[test]
fn unknown_keys_give_none() {
    assert_eq!(android_key_event_to_ruffle_key_descriptor(0), None);
    assert_eq!(android_key_event_to_ruffle_key_descriptor(117), None);
    assert_eq!(android_key_event_to_ruffle_key_descriptor(162), None);
    assert_eq!(android_key_event_to_ruffle_key_descriptor(4), None);
    assert_eq!(android_key_event_to_ruffle_key_descriptor(u32::MAX), None);
}
