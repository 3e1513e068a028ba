use voicecap::samples::{from_unsigned, magnitude, peak};

#[test]
fn unsigned_zero_is_most_negative() {
    assert_eq!(from_unsigned(0), i16::MIN);
}

#[test]
fn unsigned_max_is_most_positive() {
    assert_eq!(from_unsigned(65535), i16::MAX);
}

#[test]
fn unsigned_midpoint_is_silence() {
    assert_eq!(from_unsigned(32768), 0);
    assert_eq!(from_unsigned(32767), -1);
    assert_eq!(from_unsigned(40000), 7232);
}

#[test]
fn magnitude_saturates_at_most_negative() {
    assert_eq!(magnitude(i16::MIN), i16::MAX);
    assert_eq!(magnitude(-5), 5);
    assert_eq!(magnitude(7), 7);
    assert_eq!(magnitude(0), 0);
}

#[test]
fn peak_of_block() {
    assert_eq!(peak(&[]), 0);
    assert_eq!(peak(&[3, -900, 12, 899]), 900);
    assert_eq!(peak(&[i16::MIN, 5]), i16::MAX);
}
