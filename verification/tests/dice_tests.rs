use frogbot::dice::DiceRollRequest;
use frogbot::dice::DiceRollResult;
use frogbot::dice::RollError;
use frogbot::dice::format_roll_message;
use frogbot::dice::roll;
use frogbot::random::RandomSource;
use frogbot::random::RngError;

fn req(sides: u32, count: u32, modifier: i32) -> DiceRollRequest {
    DiceRollRequest { sides, count, modifier }
}

#[test]
fn roll_single_scripted() {
    let mut rng = RandomSource::scripted(vec![4]);
    let res = roll(&req(6, 1, 0), &mut rng).unwrap();
    assert_eq!(res.rolls, vec![4]);
    assert_eq!(res.total, 4);
}

#[test]
fn roll_multi_scripted() {
    let mut rng = RandomSource::scripted(vec![1, 2, 3]);
    let res = roll(&req(20, 3, 5), &mut rng).unwrap();
    assert_eq!(res.rolls, vec![1, 2, 3]);
    assert_eq!(res.total, 11);
}

#[test]
fn roll_invalid_sides_draws_nothing() {
    let mut rng = RandomSource::scripted(vec![5]);
    let err = roll(&req(7, 1, 0), &mut rng).unwrap_err();
    assert_eq!(err, RollError::InvalidDieShape);
    // The script was not consumed: the next valid roll still sees its head.
    let res = roll(&req(6, 1, 0), &mut rng).unwrap();
    assert_eq!(res.rolls, vec![5]);
}

#[test]
fn roll_invalid_count() {
    let mut rng = RandomSource::scripted(vec![1]);
    assert_eq!(roll(&req(6, 0, 0), &mut rng).unwrap_err(), RollError::InvalidCount);
    assert_eq!(roll(&req(6, 101, 0), &mut rng).unwrap_err(), RollError::InvalidCount);
    assert!(roll(&req(6, 100, 0), &mut rng).is_ok());
}

#[test]
fn roll_every_shape_in_range() {
    for &sides in &[4u32, 6, 8, 10, 12, 20, 100] {
        let mut rng = RandomSource::system();
        let res = roll(&req(sides, 100, -7), &mut rng).unwrap();
        assert_eq!(res.rolls.len(), 100);
        let mut sum: i64 = 0;
        for &r in &res.rolls {
            assert!(1 <= r && r <= sides);
            sum += r as i64;
        }
        assert_eq!(res.total, sum - 7);
    }
}

#[test]
fn roll_rejects_each_bad_shape() {
    for &sides in &[0u32, 1, 2, 3, 5, 7, 9, 13, 21, 99, 101] {
        let mut rng = RandomSource::system();
        assert_eq!(roll(&req(sides, 1, 0), &mut rng).unwrap_err(), RollError::InvalidDieShape);
    }
}

#[test]
fn roll_deterministic_repeat() {
    let script = vec![3, 9, 14, 2, 20];
    let mut a = RandomSource::scripted(script.clone());
    let mut b = RandomSource::scripted(script);
    let ra = roll(&req(20, 5, 2), &mut a).unwrap();
    let rb = roll(&req(20, 5, 2), &mut b).unwrap();
    assert_eq!(ra.rolls, rb.rolls);
    assert_eq!(ra.total, rb.total);
}

#[test]
fn roll_scripted_values_are_clamped() {
    let mut rng = RandomSource::scripted(vec![0, 50]);
    let res = roll(&req(6, 2, 0), &mut rng).unwrap();
    assert_eq!(res.rolls, vec![1, 6]);
    assert_eq!(res.total, 7);
}

#[test]
fn roll_exhausted_script_yields_low() {
    let mut rng = RandomSource::scripted(vec![3]);
    let res = roll(&req(6, 3, 0), &mut rng).unwrap();
    assert_eq!(res.rolls, vec![3, 1, 1]);
    assert_eq!(res.total, 5);
}

#[test]
fn message_single_die() {
    let r = req(6, 1, 0);
    let res = DiceRollResult { rolls: vec![4], total: 4 };
    let text = format_roll_message("alice", &r, &res);
    assert_eq!(text, "alice rolled a 6 sided die with a modifier of 0. The roll is 4. The total is 4.");
}

#[test]
fn message_many_dice() {
    let r = req(20, 3, 5);
    let res = DiceRollResult { rolls: vec![1, 2, 3], total: 11 };
    let text = format_roll_message("bob", &r, &res);
    assert_eq!(text, "bob rolled 3d20 with a modifier of 5. The rolls were 1, 2, 3. The total is 11.");
}

#[test]
fn message_negative_modifier() {
    let r = req(4, 2, -10);
    let res = DiceRollResult { rolls: vec![1, 2], total: -7 };
    let text = format_roll_message("carol", &r, &res);
    assert_eq!(
        text,
        "carol rolled 2d4 with a modifier of -10. The rolls were 1, 2. The total is -7.",
    );
}

#[test]
fn random_source_rejects_empty_range() {
    let mut rng = RandomSource::system();
    assert_eq!(rng.next(5, 4).unwrap_err(), RngError::InvalidRange);
    let mut s = RandomSource::scripted(vec![1]);
    assert_eq!(s.next(9, 3).unwrap_err(), RngError::InvalidRange);
}

#[test]
fn system_source_draws_in_range_and_varies() {
    let mut rng = RandomSource::system();
    let mut seen = Vec::new();
    for _ in 0..20 {
        let v = rng.next(1, 1000000).unwrap();
        assert!(1 <= v && v <= 1000000);
        seen.push(v);
    }
    // A stub that ignored its range bounds and returned a constant would
    // make 20 identical draws from a million-value range.
    assert!(seen.iter().any(|&v| v != seen[0]));
}
