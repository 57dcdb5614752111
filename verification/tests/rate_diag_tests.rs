use teleplot_core::diag_log::DiagnosticsLog;
use teleplot_core::rate::RateTracker;

#[test]
fn rate_reports_tally_over_elapsed_and_resets() {
    let mut r = RateTracker::new(0);
    for _ in 0..5 {
        r.record_frame();
    }
    assert_eq!(r.tally(), 5);
    // exactly one window of 2 seconds: rate is 5 frames / 2000 ms
    assert!(r.tick(2000));
    assert_eq!(r.rate(), (5, 2000));
    assert_eq!(r.tally(), 0);
}

#[test]
fn rate_does_not_update_before_window_elapses() {
    let mut r = RateTracker::new(1000);
    r.record_frame();
    assert!(!r.tick(1999));
    assert_eq!(r.rate(), (0, 0));
    assert_eq!(r.tally(), 1);
    assert!(r.tick(2000));
    assert_eq!(r.rate(), (1, 1000));
}

#[test]
fn rate_windows_chain_without_drift() {
    let mut r = RateTracker::new(0);
    r.record_frame();
    r.record_frame();
    assert!(r.tick(1300));
    assert_eq!(r.rate(), (2, 1300));
    r.record_frame();
    // next window is measured from 1300, not from 1000
    assert!(!r.tick(2200));
    assert!(r.tick(2300));
    assert_eq!(r.rate(), (1, 1000));
}

#[test]
fn diagnostics_log_is_fifo_bounded_at_16() {
    let mut log = DiagnosticsLog::new();
    for i in 0..16 {
        log.push(format!("message {}", i));
    }
    assert_eq!(log.len(), 16);
    assert_eq!(log.messages()[0], "message 0");
    // the 17th appended entry evicts the oldest
    log.push(String::from("message 16"));
    assert_eq!(log.len(), 16);
    assert_eq!(log.messages()[0], "message 1");
    assert_eq!(log.messages()[15], "message 16");
}

#[test]
fn diagnostics_log_keeps_arrival_order() {
    let mut log = DiagnosticsLog::new();
    log.push(String::from("first"));
    log.push(String::from("second"));
    assert_eq!(log.len(), 2);
    assert_eq!(log.messages()[0], "first");
    assert_eq!(log.messages()[1], "second");
}
