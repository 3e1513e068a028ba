use voicecap::StreamSet;

#[test]
fn stop_without_capture_is_a_no_op() {
    let mut s: StreamSet<u32> = StreamSet::new();
    s.clear();
    assert!(!s.is_active());
    assert_eq!(s.len(), 0);
    s.clear();
    assert!(!s.is_active());
}

#[test]
fn start_then_stop() {
    let mut s: StreamSet<u32> = StreamSet::new();
    s.install(vec![1, 2]);
    assert!(s.is_active());
    assert_eq!(s.len(), 2);
    s.clear();
    assert!(!s.is_active());
    assert_eq!(s.len(), 0);
}

#[test]
fn start_with_no_streams_is_still_a_capture() {
    let mut s: StreamSet<u32> = StreamSet::new();
    s.install(Vec::new());
    assert!(s.is_active());
    assert_eq!(s.len(), 0);
}
