use backpack::sonyflake::{
    encode_id, sleep_time, to_sonyflake_time, Error, Sonyflake, Step, DEFAULT_START_TIME_NANOS,
    INITIAL_SEQUENCE, TIME_LIMIT,
};

#[test]
fn new_without_start_time_uses_default_epoch() {
    let g = Sonyflake::new(7, None).unwrap();
    assert_eq!(g.shared().worker_id(), 7);
    assert_eq!(g.shared().start_time(), 140_952_960_000);
    assert_eq!(g.shared().start_time(), DEFAULT_START_TIME_NANOS / 10_000_000);
    assert_eq!(g.shared().worker_state().elapsed_time, 0);
    assert_eq!(g.shared().worker_state().sequence, INITIAL_SEQUENCE);
}

#[test]
fn start_time_ahead_of_clock_is_refused() {
    let r = Sonyflake::new_at(1, Some(2_000), 1_000);
    assert!(matches!(r, Err(Error::StartTimeAheadOfCurrentTime(2_000))));
}

#[test]
fn start_time_in_the_past_is_taken() {
    let g = Sonyflake::new_at(1, Some(1_000_000_000), 2_000_000_000).unwrap();
    assert_eq!(g.shared().start_time(), 100);
    // Equal to the clock is not ahead.
    assert!(Sonyflake::new_at(1, Some(5), 5).is_ok());
}

#[test]
fn start_time_ahead_of_real_clock_is_refused() {
    let r = Sonyflake::new(1, Some(i64::MAX));
    assert!(matches!(r, Err(Error::StartTimeAheadOfCurrentTime(t)) if t == i64::MAX));
}

#[test]
fn id_layout() {
    assert_eq!(encode_id(5, 3, 9), (5u64 << 24) | (3u64 << 16) | 9);
    assert_eq!(encode_id(0, 0, 0xffff), 0xffff);
    let id = encode_id(TIME_LIMIT - 1, 255, 0xffff);
    assert_eq!(id, (1u64 << 63) - 1);
}

#[test]
fn step_when_clock_moved_forward_restarts_sequence() {
    let g = Sonyflake::new_at(42, None, 0).unwrap();
    let mut s = g;
    let step = s.next_id_at(10).unwrap();
    assert_eq!(step, Step { id: (10u64 << 24) | 42, overtime: 0 });
    assert_eq!(s.shared().worker_state().sequence, 0);
    // Same time unit: the sequence advances.
    let step = s.next_id_at(10).unwrap();
    assert_eq!(step.id, (10u64 << 24) | (1u64 << 16) | 42);
    // Clock went back: still the same time, sequence advances.
    let step = s.next_id_at(3).unwrap();
    assert_eq!(step.id, (10u64 << 24) | (2u64 << 16) | 42);
}

#[test]
fn fresh_generator_advances_from_initial_sequence() {
    let g = Sonyflake::new_at(1, None, 0).unwrap();
    let mut s = g;
    // The clock has not moved past 0: the sequence goes on from 128.
    let step = s.next_id_at(0).unwrap();
    assert_eq!(step.id, (129u64 << 16) | 1);
    assert_eq!(step.overtime, 0);
}

#[test]
fn sequence_wrap_moves_time_ahead_of_clock() {
    let g = Sonyflake::new_at(2, None, 0).unwrap();
    let mut s = g;
    s.next_id_at(7).unwrap(); // time 7, sequence 0
    for expected in 1..256u64 {
        let step = s.next_id_at(7).unwrap();
        assert_eq!(step.id, (7u64 << 24) | (expected << 16) | 2);
    }
    // Sequence 255 wraps: time goes to 8, one unit ahead of the clock at 7.
    let step = s.next_id_at(7).unwrap();
    assert_eq!(step, Step { id: (8u64 << 24) | 2, overtime: 1 });
}

#[test]
fn time_limit_reached() {
    let g = Sonyflake::new_at(2, None, 0).unwrap();
    let mut s = g;
    assert_eq!(s.next_id_at(TIME_LIMIT), Err(Error::OverTimeLimit));
    // The generator stays exhausted, even when the clock reads less.
    assert_eq!(s.next_id_at(0), Err(Error::OverTimeLimit));
    assert_eq!(s.shared().worker_state().elapsed_time, TIME_LIMIT);
}

#[test]
fn real_clock_ids_strictly_increase() {
    let mut g = Sonyflake::new(3, None).unwrap();
    let mut last = 0u64;
    for _ in 0..1000 {
        let n = g.next_id().unwrap();
        assert!(n.id > last);
        assert!(n.overtime >= 0);
        if n.overtime == 0 {
            assert_eq!(n.sleep_nanos, 0);
        } else {
            assert!(n.sleep_nanos <= n.overtime as u128 * 10_000_000);
        }
        assert_eq!(n.id & 0xffff, 3);
        last = n.id;
    }
}

#[test]
fn sonyflake_time_truncates_toward_zero() {
    assert_eq!(to_sonyflake_time(25_000_000), 2);
    assert_eq!(to_sonyflake_time(-25_000_000), -2);
    assert_eq!(to_sonyflake_time(9_999_999), 0);
}

#[test]
fn sleep_time_subtracts_elapsed_part_of_unit() {
    assert_eq!(sleep_time(1, 1_234_567_890), 10_000_000 - 4_567_890);
    assert_eq!(sleep_time(3, 20_000_000), 30_000_000);
    assert_eq!(sleep_time(2, -5), 20_000_000);
}

#[test]
fn clock_reading_gives_time_since_start() {
    // Start at 1 s after the epoch: 100 units.
    let mut g = Sonyflake::new_at(9, Some(1_000_000_000), 1_000_000_000).unwrap();
    // The clock reads 1.25 s: 125 units, 25 since the start.
    let s = g.next_id_from_clock(1_250_000_000).unwrap();
    assert_eq!(s, Step { id: (25u64 << 24) | 9, overtime: 0 });
    // Same unit again: the sequence advances.
    let s = g.next_id_from_clock(1_259_999_999).unwrap();
    assert_eq!(s, Step { id: (25u64 << 24) | (1 << 16) | 9, overtime: 0 });
    // A clock that goes back keeps the time and advances the sequence.
    let s = g.next_id_from_clock(1_000_000_000).unwrap();
    assert_eq!(s, Step { id: (25u64 << 24) | (2 << 16) | 9, overtime: 0 });
    assert_eq!(g.shared().worker_state().elapsed_time, 25);
}

#[test]
fn real_clock_time_bits_count_units_since_start() {
    let mut g = Sonyflake::new(1, None).unwrap();
    let before = std::time::SystemTime::now().duration_since(std::time::UNIX_EPOCH).unwrap();
    let n = g.next_id().unwrap();
    let after = std::time::SystemTime::now().duration_since(std::time::UNIX_EPOCH).unwrap();
    let units = |d: std::time::Duration| (d.as_nanos() / 10_000_000) as u64 - 140_952_960_000;
    let t = n.id >> 24;
    assert!(units(before) <= t && t <= units(after), "{} {} {}", units(before), t, units(after));
}
