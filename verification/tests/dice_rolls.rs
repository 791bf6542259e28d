use vtt_baxum::dice::{fate_roll_series, DiceKind, Roll, RollResult};

fn values_of(result: &RollResult) -> Vec<i32> {
    result.values().iter().map(|r| r.0).collect()
}

#[test]
fn fate_roll_shape() {
    for _ in 0..200 {
        let result = Roll::new().roll(DiceKind::Fate, None, None);
        assert!(matches!(result, RollResult::FateRollResult(_)));
        let values = values_of(&result);
        assert_eq!(values.len(), 4);
        for v in values {
            assert!((-1..=1).contains(&v));
        }
    }
}

#[test]
fn fate_roll_ignores_range_and_times() {
    let result = Roll::new().roll(DiceKind::Fate, Some(100), Some(7));
    assert!(matches!(result, RollResult::FateRollResult(_)));
    assert_eq!(values_of(&result).len(), 4);
}

#[test]
fn faced_roll_shape() {
    for _ in 0..200 {
        let result = Roll::new().roll(DiceKind::Faced, Some(20), Some(5));
        assert!(matches!(result, RollResult::FacedRollResult(_)));
        let values = values_of(&result);
        assert_eq!(values.len(), 5);
        for v in values {
            assert!((1..=20).contains(&v));
        }
    }
}

#[test]
fn faced_roll_negative_times_normalizes_to_one() {
    let result = Roll::new().roll(DiceKind::Faced, Some(20), Some(-3));
    assert!(matches!(result, RollResult::FacedRollResult(_)));
    assert_eq!(values_of(&result).len(), 1);
}

#[test]
fn faced_roll_defaults_to_one_d20() {
    let result = Roll::new().roll(DiceKind::Faced, None, None);
    let values = values_of(&result);
    assert_eq!(values.len(), 1);
    assert!((1..=20).contains(&values[0]));
}

#[test]
fn faced_roll_one_sided_die_is_constant() {
    let result = Roll::new().roll(DiceKind::Faced, Some(1), Some(6));
    assert_eq!(values_of(&result), vec![1, 1, 1, 1, 1, 1]);
}

#[test]
fn fate_series_has_one_result_per_repetition() {
    let series = fate_roll_series(3);
    assert_eq!(series.len(), 3);
    for result in &series {
        assert!(matches!(result, RollResult::FateRollResult(_)));
        assert_eq!(values_of(result).len(), 4);
    }
    assert!(fate_roll_series(0).is_empty());
    assert!(fate_roll_series(-2).is_empty());
}
