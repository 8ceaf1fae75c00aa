use rhai_learning::host::{check_assertion, rand_int, Point};
use rhai_learning::sandbox::{OutputKind, OutputSink, RunResult};
use rhai_learning::value::Value;

#[test]
fn rand_int_within_die_range() {
    let mut seen = [false; 6];
    for _ in 0..2000 {
        let v = rand_int(1, 6).unwrap();
        assert!((1..=6).contains(&v));
        seen[(v - 1) as usize] = true;
    }
    assert!(seen.iter().all(|s| *s));
}

#[test]
fn rand_int_empty_and_single_ranges() {
    assert_eq!(rand_int(6, 1), None);
    assert_eq!(rand_int(5, 5), Some(5));
    assert!(rand_int(i64::MIN, i64::MAX).is_some());
}

#[test]
fn random_scenario_printed_roll_matches_value() {
    for _ in 0..50 {
        let roll = rand_int(1, 6).unwrap();
        let mut sink = OutputSink::new();
        sink.emit(OutputKind::Print, &roll.to_string());
        let result = RunResult::finish(sink, Ok(Value::Int(roll)));
        let printed: i64 = result.stdout.trim().parse().unwrap();
        assert!((1..=6).contains(&printed));
        assert_eq!(printed, result.value.as_int().unwrap());
    }
}

#[test]
fn assertion_fails_only_on_false() {
    assert_eq!(check_assertion(true), Ok(()));
    assert_eq!(check_assertion(false), Err("assertion failed".to_string()));
}

#[test]
fn point_length_squared() {
    assert_eq!(Point::new(3, 4).length_squared(), 25);
    assert_eq!(Point::new(-3, 0).length_squared(), 9);
    let far = Point::new(i64::MIN, i64::MIN);
    assert_eq!(far.length_squared(), 1u128 << 127);
}
