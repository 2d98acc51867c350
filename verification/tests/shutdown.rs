//! The running flag: set once, cleared once, idempotently.

use chat_server::shutdown::ShutdownFlag;

#[test]
fn starts_running_and_stops_on_signal() {
    let mut f = ShutdownFlag::new();
    assert!(f.is_running());
    f.signal();
    assert!(!f.is_running());
}

#[test]
fn repeated_signals_change_nothing() {
    let mut f = ShutdownFlag::new();
    f.signal();
    f.signal();
    assert!(!f.is_running());
    f.signal();
    assert!(!f.is_running());
}
