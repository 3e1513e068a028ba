use voicecap::{resolve_device, DeviceChoice, DeviceEntry, Role};

fn entry(name: &str, capture_capable: bool) -> DeviceEntry {
    DeviceEntry { name: Some(name.to_string()), capture_capable }
}

#[test]
fn playback_only_name_resolves_to_it() {
    let devs = vec![entry("Mic", true), entry("X", false)];
    let r = resolve_device(&devs, Role::Remote, &Some("X".to_string()), true, true);
    assert_eq!(r, Some(DeviceChoice::Listed(1)));
    let r = resolve_device(&devs, Role::Remote, &Some("X".to_string()), false, false);
    assert_eq!(r, Some(DeviceChoice::Listed(1)));
}

#[test]
fn capture_capable_match_preferred() {
    let devs = vec![entry("X", false), entry("Mic", true), entry("X", true), entry("X", true)];
    let r = resolve_device(&devs, Role::Local, &Some("X".to_string()), true, true);
    assert_eq!(r, Some(DeviceChoice::Listed(2)));
}

#[test]
fn first_of_several_plain_matches() {
    let devs = vec![entry("Y", true), entry("X", false), entry("X", false)];
    let r = resolve_device(&devs, Role::Local, &Some("X".to_string()), true, true);
    assert_eq!(r, Some(DeviceChoice::Listed(1)));
}

#[test]
fn unnamed_entries_never_match() {
    let devs = vec![DeviceEntry { name: None, capture_capable: true }];
    let r = resolve_device(&devs, Role::Local, &Some("X".to_string()), true, true);
    assert_eq!(r, Some(DeviceChoice::DefaultCapture));
}

#[test]
fn unknown_name_falls_back_to_role_default() {
    let devs = vec![entry("Mic", true)];
    let name = Some("Nope".to_string());
    assert_eq!(resolve_device(&devs, Role::Remote, &name, true, true), Some(DeviceChoice::DefaultPlayback));
    assert_eq!(resolve_device(&devs, Role::Local, &name, true, true), Some(DeviceChoice::DefaultCapture));
}

#[test]
fn no_name_uses_role_default() {
    let devs = vec![entry("Mic", true)];
    assert_eq!(resolve_device(&devs, Role::Remote, &None, true, false), Some(DeviceChoice::DefaultPlayback));
    assert_eq!(resolve_device(&devs, Role::Local, &None, false, true), Some(DeviceChoice::DefaultCapture));
}

#[test]
fn nothing_to_resolve_gives_none() {
    let devs: Vec<DeviceEntry> = Vec::new();
    assert_eq!(resolve_device(&devs, Role::Remote, &None, false, true), None);
    assert_eq!(resolve_device(&devs, Role::Local, &Some("X".to_string()), true, false), None);
}
