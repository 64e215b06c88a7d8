use gfx_kiss::driver::{keeps_running, Signal};

#[test]
fn no_signals_keep_running() {
    assert!(keeps_running(&Vec::new()));
}

#[test]
fn other_signals_keep_running() {
    assert!(keeps_running(&vec![Signal::Other, Signal::Other]));
}

#[test]
fn close_request_stops() {
    assert!(!keeps_running(&vec![Signal::Other, Signal::Closed]));
}

#[test]
fn escape_stops() {
    assert!(!keeps_running(&vec![Signal::Escape, Signal::Other]));
}
