use audio_tap::directory::{check_device_exists, devices_named, find_device_by_name, set_default_device, uid_of, DeviceInfo};
use audio_tap::error::AudioError;
use audio_tap::paste::{simulate_paste, Desktop, Key, KeyEvent};
use audio_tap::volume::{fade_volume, VOLUME_FULL};

fn devices() -> Vec<DeviceInfo> {
    vec![
        DeviceInfo { id: 10, name: "Built-in".to_string(), uid: "b-uid".to_string() },
        DeviceInfo { id: 11, name: "Agg".to_string(), uid: "a1".to_string() },
        DeviceInfo { id: 12, name: "Agg".to_string(), uid: "a2".to_string() },
    ]
}

#[test]
fn device_lookup_by_name() {
    let d = devices();
    assert!(check_device_exists(&d, "Agg"));
    assert!(!check_device_exists(&d, "agg"));
    assert!(!check_device_exists(&[].to_vec(), "Agg"));
    assert_eq!(
        find_device_by_name(&d, "Agg"),
        Some(DeviceInfo { id: 11, name: "Agg".to_string(), uid: "a1".to_string() })
    );
    assert_eq!(find_device_by_name(&d, "None"), None);
    assert_eq!(devices_named(&d, &"Agg".to_string()), vec![11, 12]);
    assert_eq!(devices_named(&d, &"x".to_string()), Vec::<u32>::new());
}

#[test]
fn default_device_resolution() {
    let d = devices();
    assert_eq!(set_default_device(&d, "Built-in"), Ok(10));
    assert_eq!(set_default_device(&d, "Missing"), Err(AudioError::NotFound));
    assert_eq!(uid_of(&d, 12), Ok("a2".to_string()));
    assert_eq!(uid_of(&d, 13), Err(AudioError::NotFound));
}

#[test]
fn fade_is_a_linear_ramp_ending_at_target() {
    assert_eq!(fade_volume(VOLUME_FULL, 0, 4), vec![750_000, 500_000, 250_000, 0]);
    assert_eq!(fade_volume(0, 1000, 3), vec![333, 666, 1000]);
    assert_eq!(fade_volume(100, 0, 3), vec![67, 34, 0]);
    assert_eq!(fade_volume(5, 9, 0), Vec::<u32>::new());
}

#[test]
fn paste_uses_command_on_macos() {
    assert_eq!(
        simulate_paste(Desktop::MacOs),
        vec![
            KeyEvent::Press(Key::MetaLeft),
            KeyEvent::Press(Key::KeyV),
            KeyEvent::Release(Key::KeyV),
            KeyEvent::Release(Key::MetaLeft)
        ]
    );
}

#[test]
fn paste_uses_control_elsewhere() {
    assert_eq!(
        simulate_paste(Desktop::Other),
        vec![
            KeyEvent::Press(Key::ControlLeft),
            KeyEvent::Press(Key::KeyV),
            KeyEvent::Release(Key::KeyV),
            KeyEvent::Release(Key::ControlLeft)
        ]
    );
}
