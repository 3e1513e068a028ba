use base64::Engine;
use voicecap::{check_and_send_buffer, AudioPayload, ChunkPolicy, Role};

fn decode(p: &AudioPayload) -> Vec<u8> {
    base64::engine::general_purpose::STANDARD.decode(&p.data).unwrap()
}

#[test]
fn standard_policy_values() {
    let p = ChunkPolicy::standard();
    assert_eq!(p.chunk_seconds, 6);
    assert_eq!(p.amplitude_gate, 800);
}

#[test]
fn role_tags() {
    assert_eq!(Role::Local.tag(), "local");
    assert_eq!(Role::Remote.tag(), "remote");
}

#[test]
fn drain_threshold_not_reached_at_limit() {
    let mut buf = vec![0i16; 96000];
    let r = check_and_send_buffer(&mut buf, 16000, 1, ChunkPolicy::standard(), Role::Remote, 0);
    assert_eq!(buf.len(), 96000);
    // 96000 is a multiple of the 3200-sample level interval.
    let e = r.unwrap();
    assert_eq!(e.data, "");
    assert_eq!(e.amplitude, 0);
}

#[test]
fn drain_threshold_passed_above_limit() {
    let mut buf = vec![0i16; 96001];
    let r = check_and_send_buffer(&mut buf, 16000, 1, ChunkPolicy::standard(), Role::Remote, 3);
    assert!(buf.is_empty());
    let e = r.unwrap();
    assert_eq!(e.speaker, "remote");
    assert_eq!(e.data, "");
    assert_eq!(e.amplitude, 3);
}

#[test]
fn below_limit_without_level_tick_gives_nothing() {
    let mut buf = vec![1i16; 1000];
    let r = check_and_send_buffer(&mut buf, 16000, 1, ChunkPolicy::standard(), Role::Local, 1);
    assert!(r.is_none());
    assert_eq!(buf.len(), 1000);
}

#[test]
fn level_tick_within_two_frames_of_interval() {
    // Stereo at 8000 Hz: interval 3200 samples, window of 4 samples.
    for (len, due) in [(3200usize, true), (3202, true), (3204, false), (6402, true), (6398, false)] {
        let mut buf = vec![0i16; len];
        let r = check_and_send_buffer(&mut buf, 8000, 2, ChunkPolicy::standard(), Role::Local, 9);
        assert_eq!(r.is_some(), due, "length {}", len);
        assert_eq!(buf.len(), len);
    }
}

fn drained_with_peak(p: i16) -> (Vec<i16>, AudioPayload) {
    let mut samples = vec![0i16; 96001];
    samples[500] = p;
    let mut buf = samples.clone();
    let r = check_and_send_buffer(&mut buf, 16000, 1, ChunkPolicy::standard(), Role::Local, 17);
    assert!(buf.is_empty());
    (samples, r.unwrap())
}

#[test]
fn gate_below_sends_level_only() {
    let (_, e) = drained_with_peak(799);
    assert_eq!(e.data, "");
    assert_eq!(e.amplitude, 17);
}

#[test]
fn gate_boundary_is_exclusive() {
    let (_, e) = drained_with_peak(800);
    assert_eq!(e.data, "");
    assert_eq!(e.amplitude, 17);
    let (_, e) = drained_with_peak(-800);
    assert_eq!(e.data, "");
}

#[test]
fn gate_above_sends_audio() {
    let (_, e) = drained_with_peak(801);
    assert!(!e.data.is_empty());
    assert_eq!(e.amplitude, 801);
    assert_eq!(e.speaker, "local");
    let (_, e) = drained_with_peak(-801);
    assert_eq!(e.amplitude, 801);
}

#[test]
fn sent_chunk_round_trips_through_wav_reader() {
    let (samples, e) = drained_with_peak(12345);
    let bytes = decode(&e);
    assert_eq!(bytes.len(), 44 + 2 * samples.len());
    assert_eq!(&bytes[0..4], b"RIFF");
    assert_eq!(&bytes[8..12], b"WAVE");
    assert_eq!(e.data.len(), 4 * ((bytes.len() + 2) / 3));
    let mut reader = hound::WavReader::new(std::io::Cursor::new(bytes)).unwrap();
    let spec = reader.spec();
    assert_eq!(spec.sample_rate, 16000);
    assert_eq!(spec.channels, 1);
    assert_eq!(spec.bits_per_sample, 16);
    assert_eq!(spec.sample_format, hound::SampleFormat::Int);
    let back: Vec<i16> = reader.samples::<i16>().map(|s| s.unwrap()).collect();
    assert_eq!(back, samples);
}

#[test]
fn multichannel_chunk_round_trips_through_wav_reader() {
    // Four channels at 1000 Hz, one-second chunks: limit 4000 samples.
    let policy = ChunkPolicy { chunk_seconds: 1, amplitude_gate: 100 };
    let samples: Vec<i16> = (0..4004).map(|i: i32| ((i * 37) % 65536 - 32768) as i16).collect();
    let mut buf = samples.clone();
    let e = check_and_send_buffer(&mut buf, 1000, 4, policy, Role::Remote, 0).unwrap();
    assert!(buf.is_empty());
    let bytes = decode(&e);
    assert_eq!(bytes.len(), 68 + 2 * samples.len());
    let mut reader = hound::WavReader::new(std::io::Cursor::new(bytes)).unwrap();
    assert_eq!(reader.spec().sample_rate, 1000);
    assert_eq!(reader.spec().channels, 4);
    let back: Vec<i16> = reader.samples::<i16>().map(|s| s.unwrap()).collect();
    assert_eq!(back, samples);
}
