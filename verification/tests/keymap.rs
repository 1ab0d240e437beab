use openlogi_inject::keymap::{hid_usage_to_macos, hid_usage_to_windows, FunctionKey};

#[test]
fn hid_usages_map_across_windows_key_categories() {
    assert_eq!(hid_usage_to_windows(0x04), Some(0x41)); // A
    assert_eq!(hid_usage_to_windows(0x1e), Some(0x31)); // 1
    assert_eq!(hid_usage_to_windows(0x3a), Some(0x70)); // F1
    assert_eq!(hid_usage_to_windows(0x6f), Some(0x83)); // F20
    assert_eq!(hid_usage_to_windows(0x50), Some(0x25)); // Left
    assert_eq!(hid_usage_to_windows(0x2c), Some(0x20)); // Space
    assert_eq!(hid_usage_to_windows(0x33), Some(0xba)); // Semicolon
    assert_eq!(hid_usage_to_windows(0xff), None);
}

#[test]
fn hid_usages_map_across_macos_key_categories() {
    assert_eq!(hid_usage_to_macos(0x04), Some(0x00)); // A
    assert_eq!(hid_usage_to_macos(0x1d), Some(0x06)); // Z
    assert_eq!(hid_usage_to_macos(0x1e), Some(0x12)); // 1
    assert_eq!(hid_usage_to_macos(0x27), Some(0x1d)); // 0
    assert_eq!(hid_usage_to_macos(0x29), Some(0x35)); // Escape
    assert_eq!(hid_usage_to_macos(0x2b), Some(0x30)); // Tab
    assert_eq!(hid_usage_to_macos(0x3a), Some(0x7a)); // F1
    assert_eq!(hid_usage_to_macos(0x45), Some(0x6f)); // F12
    assert_eq!(hid_usage_to_macos(0x68), Some(0x69)); // F13
    assert_eq!(hid_usage_to_macos(0x6e), Some(0x50)); // F19
    assert_eq!(hid_usage_to_macos(0x6f), Some(0x5a)); // F20
    assert_eq!(hid_usage_to_macos(0x50), Some(0x7b)); // Left
    assert_eq!(hid_usage_to_macos(0x32), None);
    assert_eq!(hid_usage_to_macos(0x00), None);
}

#[test]
fn both_platforms_map_the_same_usages_to_distinct_keys() {
    for usage in 0..=255u8 {
        assert_eq!(
            hid_usage_to_macos(usage).is_some(),
            hid_usage_to_windows(usage).is_some()
        );
        for other in 0..usage {
            if hid_usage_to_macos(usage).is_some() {
                assert_ne!(hid_usage_to_macos(usage), hid_usage_to_macos(other));
                assert_ne!(hid_usage_to_windows(usage), hid_usage_to_windows(other));
            }
        }
    }
}

#[test]
fn function_keys_run_from_one_to_nineteen() {
    assert_eq!(FunctionKey::nth_f(0), None);
    assert_eq!(FunctionKey::nth_f(1), Some(FunctionKey::F1));
    assert_eq!(FunctionKey::nth_f(19), Some(FunctionKey::F19));
    assert_eq!(FunctionKey::nth_f(20), None);
    assert_eq!(FunctionKey::Esc.keycode(), 0x35);
    assert_eq!(FunctionKey::F5.keycode(), 0x60);
}
