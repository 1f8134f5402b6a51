use linear_regression::training::ErrorLog;
use linear_regression::progress::{bar_shape, BarShape};

fn b(x: f64) -> u64 {
    x.to_bits()
}

#[test]
fn a_new_log_holds_the_error_and_no_history() {
    let log = ErrorLog::new(b(12.5));
    assert_eq!(f64::from_bits(log.error()), 12.5);
    assert!(log.history().is_empty());
}

#[test]
fn falling_errors_are_accepted_and_recorded() {
    let mut log = ErrorLog::new(b(10.0));
    assert!(log.step(b(8.0)));
    assert!(log.step(b(8.0)));
    assert!(log.step(b(3.0)));
    assert_eq!(f64::from_bits(log.error()), 3.0);
    let h: Vec<f64> = log.history().into_iter().map(f64::from_bits).collect();
    assert_eq!(h, vec![10.0, 8.0, 8.0]);
}

#[test]
fn a_rising_error_stops_and_keeps_the_error_in_force() {
    let mut log = ErrorLog::new(b(5.0));
    assert!(!log.step(b(5.5)));
    assert_eq!(f64::from_bits(log.error()), 5.0);
    let h: Vec<f64> = log.history().into_iter().map(f64::from_bits).collect();
    assert_eq!(h, vec![5.0]);
}

#[test]
fn a_nan_error_is_not_greater_and_is_accepted() {
    let mut log = ErrorLog::new(b(5.0));
    assert!(log.step(b(f64::NAN)));
    assert!(f64::from_bits(log.error()).is_nan());
    assert!(log.step(b(1.0e9)));
    assert_eq!(f64::from_bits(log.error()), 1.0e9);
}

#[test]
fn setting_the_error_keeps_the_history() {
    let mut log = ErrorLog::new(b(4.0));
    assert!(log.step(b(2.0)));
    log.set_error(b(100.0));
    assert_eq!(f64::from_bits(log.error()), 100.0);
    let h: Vec<f64> = log.history().into_iter().map(f64::from_bits).collect();
    assert_eq!(h, vec![4.0]);
}

#[test]
fn recorded_errors_never_rise_within_a_run() {
    let mut log = ErrorLog::new(b(9.0));
    for m in [7.0, 7.5, 6.0, 6.0, 2.0, 4.0] {
        log.step(b(m));
    }
    let h: Vec<f64> = log.history().into_iter().map(f64::from_bits).collect();
    assert_eq!(h, vec![9.0, 7.0, 7.0, 6.0, 6.0, 2.0]);
    for w in h.windows(2) {
        assert!(!(w[1] > w[0]));
    }
}

#[test]
fn zero_length_tasks_get_a_spinner() {
    assert_eq!(bar_shape(0), BarShape::Spinner);
    assert_eq!(bar_shape(500), BarShape::Counter(500));
    assert_eq!(bar_shape(1), BarShape::Counter(1));
}
