use rust_terminal::flow::FlowGate;

#[test]
fn pause_twice_is_pause() {
    let mut g = FlowGate::new();
    g.pause();
    g.pause();
    assert!(g.is_paused());
}

#[test]
fn resume_twice_is_resume() {
    let mut g = FlowGate::new();
    g.pause();
    g.resume();
    g.resume();
    assert!(!g.is_paused());
}

#[test]
fn pause_then_resume_is_resume() {
    let mut g = FlowGate::new();
    g.pause();
    g.resume();
    assert!(!g.is_paused());
}

#[test]
fn wait_on_paused_gate_ends_in_resume() {
    let mut g = FlowGate::new();
    g.pause();
    assert!(g.is_paused());
    assert!(g.end_wait());
    assert!(!g.is_paused());
}

#[test]
fn wait_after_resume_reports_no_timeout() {
    let mut g = FlowGate::new();
    g.pause();
    g.resume();
    assert!(!g.end_wait());
    assert!(!g.is_paused());
}
