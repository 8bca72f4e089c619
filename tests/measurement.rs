use dtop::calibration::{decode_baseline, encode_baseline, load_baseline, CalibrationError};
use dtop::controller::{
    aggregate_score, evaluate, normalize, performance, utilization, Parameter, ParameterError,
    Percentage, Report, RunMode, Schedule, TickError,
};
use dtop::decimal::{encode_i64, parse_i64};
use dtop::kernel::{busy_work_unit, is_prime, PRIME};
use dtop::probe::{keeps_running, ProbeCounter, SignalPoll};

fn param(calibrating: bool, run_mode: RunMode) -> Parameter {
    Parameter { calibrating, step_mode: false, run_mode, interval: 1 }
}

fn percent_value(p: Percentage) -> f64 {
    p.numerator as f64 / p.denominator as f64
}

#[test]
fn kernel_tests_primality() {
    assert!(is_prime(PRIME));
    assert!(busy_work_unit());
    assert!(is_prime(2));
    assert!(is_prime(13));
    assert!(!is_prime(10));
    assert!(!is_prime(7917));
}

#[test]
fn sample_has_one_entry_per_probe_in_order() {
    let counts: Vec<i64> = vec![10, 20, 30, 40];
    let sample = normalize(&counts, 2);
    assert_eq!(sample, vec![5, 10, 15, 20]);
    let odd: Vec<i64> = vec![7, -7];
    assert_eq!(normalize(&odd, 2), vec![3, -3]);
    assert_eq!(normalize(&Vec::new(), 3), Vec::<i64>::new());
}

#[test]
fn counter_drain_resets_exactly() {
    let mut c = ProbeCounter::new();
    for _ in 0..5 {
        c.record_unit();
    }
    assert_eq!(c.drain(), 5);
    assert_eq!(c.get(), 0);
    c.record_unit();
    c.record_unit();
    assert_eq!(c.drain(), 2);
    assert_eq!(c.drain(), 0);
}

#[test]
fn calibration_twice_stores_same_score() {
    let k: i64 = 250;
    let cores = 4;
    let counts: Vec<i64> = vec![k; cores];
    let p = param(true, RunMode::AppUtilization);
    let first = evaluate(&p, &normalize(&counts, p.interval), None).unwrap();
    let saved = encode_baseline(first.baseline_to_save().unwrap());
    let second = evaluate(&p, &normalize(&counts, p.interval), Some(&saved)).unwrap();
    assert_eq!(first, Report::Calibrated { total: 1000 });
    assert_eq!(second, first);
}

#[test]
fn utilization_formula() {
    let stored = b"1000".to_vec();
    let sample: Vec<i64> = vec![400, 350];
    let r = evaluate(&param(false, RunMode::AppUtilization), &sample, Some(&stored)).unwrap();
    match r {
        Report::Utilization { total, percent } => {
            assert_eq!(total, 750);
            assert!((percent_value(percent) - 25.0).abs() < 1e-6);
        }
        other => panic!("unexpected report {:?}", other),
    }
    assert_eq!(utilization(1000, 750), Percentage { numerator: 25000, denominator: 1000 });
}

#[test]
fn performance_formula() {
    let stored = b"1000".to_vec();
    let sample: Vec<i64> = vec![900];
    let r = evaluate(&param(false, RunMode::SysPerformance), &sample, Some(&stored)).unwrap();
    match r {
        Report::Performance { total, percent } => {
            assert_eq!(total, 900);
            assert!((percent_value(percent) - 90.0).abs() < 1e-6);
        }
        other => panic!("unexpected report {:?}", other),
    }
    assert_eq!(performance(1000, 900), Percentage { numerator: 90000, denominator: 1000 });
}

#[test]
fn missing_baseline_bootstraps() {
    let sample: Vec<i64> = vec![300, 200];
    for mode in [RunMode::AppUtilization, RunMode::SysPerformance] {
        let r = evaluate(&param(false, mode), &sample, None).unwrap();
        assert_eq!(r, Report::Calibrated { total: 500 });
        assert_eq!(r.baseline_to_save(), Some(500));
    }
}

#[test]
fn stop_signal_or_closed_channel_stops_probe() {
    assert!(!keeps_running(SignalPoll::Stop));
    assert!(!keeps_running(SignalPoll::Disconnected));
    assert!(keeps_running(SignalPoll::Empty));
    let polls = [SignalPoll::Empty, SignalPoll::Empty, SignalPoll::Stop, SignalPoll::Empty];
    let mut c = ProbeCounter::new();
    let mut units = 0;
    for p in polls {
        busy_work_unit();
        c.record_unit();
        units += 1;
        if !keeps_running(p) {
            break;
        }
    }
    assert_eq!(units, 3);
    assert_eq!(c.get(), 3);
}

#[test]
fn corrupt_calibration_is_fatal() {
    let stored = b"abc".to_vec();
    let sample: Vec<i64> = vec![1, 2];
    let r = evaluate(&param(false, RunMode::AppUtilization), &sample, Some(&stored));
    assert_eq!(r, Err(TickError::CorruptCalibration));
    assert_eq!(decode_baseline(b"abc"), Err(CalibrationError::Corrupt));
    assert_eq!(load_baseline(None), Err(CalibrationError::NotCalibrated));
    assert_eq!(load_baseline(Some(b"12")), Ok(12));
}

#[test]
fn calibrating_ignores_store() {
    let stored = b"abc".to_vec();
    let sample: Vec<i64> = vec![5, 6];
    let r = evaluate(&param(true, RunMode::AppUtilization), &sample, Some(&stored));
    assert_eq!(r, Ok(Report::Calibrated { total: 11 }));
}

#[test]
fn aggregate_overflow_is_reported() {
    let big: Vec<i64> = vec![i64::MAX, 1];
    assert_eq!(aggregate_score(&big), None);
    let r = evaluate(&param(true, RunMode::AppUtilization), &big, None);
    assert_eq!(r, Err(TickError::ScoreOverflow));
    let mixed: Vec<i64> = vec![i64::MAX, 1, -2];
    assert_eq!(aggregate_score(&mixed), Some(i64::MAX - 1));
    assert_eq!(aggregate_score(&Vec::new()), Some(0));
}

#[test]
fn decimal_parsing() {
    assert_eq!(parse_i64(b"0"), Some(0));
    assert_eq!(parse_i64(b"+42"), Some(42));
    assert_eq!(parse_i64(b"-42"), Some(-42));
    assert_eq!(parse_i64(b"007"), Some(7));
    assert_eq!(parse_i64(b"9223372036854775807"), Some(i64::MAX));
    assert_eq!(parse_i64(b"-9223372036854775808"), Some(i64::MIN));
    assert_eq!(parse_i64(b"9223372036854775808"), None);
    assert_eq!(parse_i64(b"-9223372036854775809"), None);
    assert_eq!(parse_i64(b"123456789012345678901234567890"), None);
    assert_eq!(parse_i64(b""), None);
    assert_eq!(parse_i64(b"-"), None);
    assert_eq!(parse_i64(b"+"), None);
    assert_eq!(parse_i64(b"12\n"), None);
    assert_eq!(parse_i64(b" 12"), None);
}

#[test]
fn decimal_encoding_round_trips() {
    assert_eq!(encode_i64(0), b"0".to_vec());
    assert_eq!(encode_i64(1234), b"1234".to_vec());
    assert_eq!(encode_i64(-56), b"-56".to_vec());
    assert_eq!(encode_i64(i64::MIN), b"-9223372036854775808".to_vec());
    for v in [0, 1, -1, 9, 10, 99, 100, i64::MAX, i64::MIN, 123456789] {
        assert_eq!(encode_i64(v), v.to_string().into_bytes());
        assert_eq!(parse_i64(&encode_i64(v)), Some(v));
        assert_eq!(decode_baseline(&encode_baseline(v)), Ok(v));
    }
}

#[test]
fn parameters_from_flags() {
    let p = Parameter::from_flags(true, false, b"1", b"3").unwrap();
    assert_eq!(
        p,
        Parameter { calibrating: true, step_mode: false, run_mode: RunMode::SysPerformance, interval: 3 }
    );
    assert_eq!(Parameter::from_flags(false, true, b"0", b"1").unwrap().run_mode, RunMode::AppUtilization);
    assert_eq!(Parameter::from_flags(false, false, b"7", b"1").unwrap().run_mode, RunMode::AppUtilization);
    assert_eq!(Parameter::from_flags(false, false, b"x", b"1"), Err(ParameterError::Mode));
    assert_eq!(Parameter::from_flags(false, false, b"0", b"0"), Err(ParameterError::Interval));
    assert_eq!(Parameter::from_flags(false, false, b"0", b"-2"), Err(ParameterError::Interval));
    assert_eq!(Parameter::from_flags(false, false, b"0", b"2147483648"), Err(ParameterError::Interval));
    assert_eq!(Parameter::from_flags(false, false, b"4294967297", b"1"), Err(ParameterError::Mode));
    assert_eq!(RunMode::from_code(1), RunMode::SysPerformance);
    assert_eq!(RunMode::from_code(-1), RunMode::AppUtilization);
}

#[test]
fn schedule_counts_ticks() {
    let once = param(true, RunMode::AppUtilization);
    assert_eq!(once.tick_limit(), Some(1));
    assert!(once.signals_stop());
    let endless = param(false, RunMode::AppUtilization);
    assert_eq!(endless.tick_limit(), None);
    assert!(!endless.signals_stop());

    let mut s = Schedule::new(Some(2));
    assert!(s.next_tick());
    assert!(s.next_tick());
    assert!(!s.next_tick());
    assert!(!s.next_tick());
    let mut u = Schedule::new(None);
    for _ in 0..100 {
        assert!(u.next_tick());
    }
    let mut none = Schedule::new(Some(0));
    assert!(!none.next_tick());
}
