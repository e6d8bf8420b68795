use rust_terminal::announce::{scan_announce, TtyWatch};

#[test]
fn announce_sequence_is_found() {
    assert_eq!(scan_announce(b"\x1b]7337;/dev/pts/7\x1b\\").as_deref(), Some("/dev/pts/7"));
}

#[test]
fn announce_inside_other_output() {
    let chunk = b"login ok\r\n\x1b]7337;/dev/pts/12\x1b\\$ ";
    assert_eq!(scan_announce(chunk).as_deref(), Some("/dev/pts/12"));
}

#[test]
fn trailing_escapes_are_stripped() {
    assert_eq!(scan_announce(b"]7337;/dev/pts/3\x1b\x1b\\").as_deref(), Some("/dev/pts/3"));
}

#[test]
fn announce_needs_pts_path() {
    assert!(scan_announce(b"\x1b]7337;/dev/tty1\x1b\\").is_none());
    assert!(scan_announce(b"\x1b]7337;not a tty\x1b\\").is_none());
}

#[test]
fn announce_needs_terminator() {
    assert!(scan_announce(b"\x1b]7337;/dev/pts/7").is_none());
    assert!(scan_announce(b"plain output").is_none());
    assert!(scan_announce(b"").is_none());
}

#[test]
fn announce_in_invalid_utf8_chunk_is_skipped() {
    assert!(scan_announce(b"\xff\x1b]7337;/dev/pts/7\x1b\\").is_none());
}

#[test]
fn only_first_mark_is_considered() {
    // the first mark is followed by a path that is not a pts path
    assert!(scan_announce(b"]7337;/tmp\\ ]7337;/dev/pts/4\\").is_none());
}

#[test]
fn first_observation_wins() {
    let mut w = TtyWatch::new();
    assert!(w.observe(b"no announce here").is_none());
    assert!(!w.is_detected());
    assert_eq!(w.observe(b"\x1b]7337;/dev/pts/7\x1b\\").as_deref(), Some("/dev/pts/7"));
    assert!(w.is_detected());
    assert!(w.observe(b"\x1b]7337;/dev/pts/8\x1b\\").is_none());
    assert_eq!(w.observation().as_deref(), Some("/dev/pts/7"));
}
