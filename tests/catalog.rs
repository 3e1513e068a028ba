use voicecap::catalog::contains_text;
use voicecap::{get_audio_devices, DeviceInfo};

fn names(v: &[&str]) -> Vec<String> {
    v.iter().map(|s| s.to_string()).collect()
}

fn pairs(d: &[DeviceInfo]) -> Vec<(String, bool)> {
    d.iter().map(|i| (i.name.clone(), i.is_input)).collect()
}

#[test]
fn inputs_then_outputs_deduplicated() {
    let d = get_audio_devices(
        &names(&["Mic", "Speakers (Loopback)", "Mic"]),
        &names(&["Speakers", "Mic", "Headphones"]),
    );
    assert_eq!(
        pairs(&d),
        vec![
            ("Mic".to_string(), true),
            ("Speakers (Loopback)".to_string(), false),
            ("Speakers".to_string(), false),
            ("Headphones".to_string(), false),
        ]
    );
}

#[test]
fn loopback_matched_without_case() {
    let d = get_audio_devices(&names(&["LOOPBACK Audio", "LoopBack", "Loop back"]), &names(&[]));
    assert_eq!(
        pairs(&d),
        vec![
            ("LOOPBACK Audio".to_string(), false),
            ("LoopBack".to_string(), false),
            ("Loop back".to_string(), true),
        ]
    );
}

#[test]
fn empty_enumerations_give_empty_catalog() {
    assert!(get_audio_devices(&names(&[]), &names(&[])).is_empty());
}

#[test]
fn output_named_like_input_keeps_input_entry() {
    let d = get_audio_devices(&names(&["USB Headset"]), &names(&["USB Headset"]));
    assert_eq!(pairs(&d), vec![("USB Headset".to_string(), true)]);
}

#[test]
fn text_search() {
    assert!(contains_text("speakers (loopback)", "loopback"));
    assert!(!contains_text("loopbac", "loopback"));
    assert!(contains_text("abc", ""));
    assert!(contains_text("äöü loopback", "loopback"));
    assert!(!contains_text("", "x"));
}
