use rust_terminal::registry::ClientTtyRegistry;
use rust_terminal::session::TerminalSession;
use rust_terminal::protocol::{ResizeMessage, TermSize};

#[test]
fn publish_into_empty_registry() {
    let mut r = ClientTtyRegistry::new();
    assert!(r.get().is_none());
    assert!(r.publish("/dev/pts/7"));
    assert_eq!(r.get().as_deref(), Some("/dev/pts/7"));
    assert!(r.publish("/dev/pts/7"));
    assert_eq!(r.get().as_deref(), Some("/dev/pts/7"));
}

#[test]
fn publish_keeps_other_sessions_path() {
    let mut r = ClientTtyRegistry::new();
    r.publish("/dev/pts/7");
    assert!(!r.publish("/dev/pts/8"));
    assert_eq!(r.get().as_deref(), Some("/dev/pts/7"));
}

#[test]
fn sweep_clears_own_path() {
    let mut r = ClientTtyRegistry::new();
    r.publish("/dev/pts/7");
    assert!(r.clear_if_equal(&Some("/dev/pts/7".to_string())));
    assert!(r.get().is_none());
}

#[test]
fn sweep_keeps_other_path() {
    let mut r = ClientTtyRegistry::new();
    r.publish("/dev/pts/8");
    assert!(!r.clear_if_equal(&Some("/dev/pts/7".to_string())));
    assert_eq!(r.get().as_deref(), Some("/dev/pts/8"));
    assert!(!r.clear_if_equal(&None));
    assert_eq!(r.get().as_deref(), Some("/dev/pts/8"));
}

#[test]
fn teardown_is_single_shot() {
    let mut r = ClientTtyRegistry::new();
    r.publish("/dev/pts/7");
    let mut s = TerminalSession::new(TermSize { cols: 80, rows: 24 });
    let t = s.finish(Some("/dev/pts/7".to_string())).unwrap();
    assert_eq!(t.detach_target().as_deref(), Some("/dev/pts/7"));
    assert!(t.sweep(&mut r));
    assert!(r.get().is_none());
    assert!(s.finish(Some("/dev/pts/7".to_string())).is_none());
}

#[test]
fn teardown_sweep_spares_newer_session() {
    let mut r = ClientTtyRegistry::new();
    r.publish("/dev/pts/8");
    let mut s = TerminalSession::new(TermSize { cols: 80, rows: 24 });
    let t = s.finish(Some("/dev/pts/7".to_string())).unwrap();
    assert!(!t.sweep(&mut r));
    assert_eq!(r.get().as_deref(), Some("/dev/pts/8"));
}

#[test]
fn teardown_without_observation() {
    let mut r = ClientTtyRegistry::new();
    let mut s = TerminalSession::new(TermSize { cols: 80, rows: 24 });
    let t = s.finish(None).unwrap();
    assert!(t.detach_target().is_none());
    assert!(t.sweep(&mut r));
    assert!(r.get().is_none());
}

#[test]
fn last_resize_wins_and_repeats_change_nothing() {
    let mut s = TerminalSession::new(TermSize { cols: 80, rows: 24 });
    s.resize(&ResizeMessage { columns: 100, rows: 30 });
    let r = s.resize(&ResizeMessage { columns: 40, rows: 12 });
    assert_eq!(r, TermSize { cols: 40, rows: 12 });
    assert_eq!(s.size(), TermSize { cols: 40, rows: 12 });
    s.resize(&ResizeMessage { columns: 40, rows: 12 });
    assert_eq!(s.size(), TermSize { cols: 40, rows: 12 });
}
