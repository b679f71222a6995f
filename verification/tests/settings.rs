use marty::config::{default_log_level, default_server_port, Settings};
use marty::scheduler::{DecayScheduler, DECAY_INTERVAL_SECS};
use std::time::Duration;

#[test]
fn defaults() {
    assert_eq!(default_server_port(), 7777);
    assert_eq!(default_log_level(), "info");
    let d = Settings::default();
    assert_eq!(d.server_port, 7777);
    assert_eq!(d.log_level, "info");
}

#[test]
fn found_values_win() {
    let s = Settings::new(Some(8080), None);
    assert_eq!(s.server_port, 8080);
    assert_eq!(s.log_level, "info");
    let s = Settings::new(None, Some("debug".to_string()));
    assert_eq!(s.server_port, 7777);
    assert_eq!(s.log_level, "debug");
}

#[test]
fn scheduler_keeps_its_interval() {
    let s = DecayScheduler::new(Duration::from_secs(DECAY_INTERVAL_SECS));
    assert_eq!(s.tick_interval, Duration::from_secs(3600));
}
