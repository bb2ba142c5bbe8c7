use metw_id::epoch::epoch;
use metw_id::id::Id;
use metw_id::snowflake::{load_constant, next, Snowflake, INCREMENT_MAX, TIMESTAMP_LIMIT};
use std::collections::HashSet;

type TestId = Id;

/// Milliseconds since the epoch, read from the wall clock.
fn now_timestamp() -> i64 {
    chrono::Utc::now().timestamp_millis() - epoch() as i64
}

/// Asks the generator until it hands out an ID, reading the clock afresh each time.
fn next_id(generator: &mut Snowflake) -> i64 {
    loop {
        let timestamp = now_timestamp();
        assert!(timestamp < TIMESTAMP_LIMIT);
        if let Some(id) = next(generator, timestamp) {
            return id;
        }
    }
}

fn unique(generator: &mut Snowflake) -> TestId {
    loop {
        if let Some(id) = TestId::unique(generator, now_timestamp()) {
            return id;
        }
    }
}

#[test]
fn ordering() {
    let mut generator = Snowflake::new();
    for _ in 0..1023 {
        let first = unique(&mut generator);
        let second = unique(&mut generator);

        assert!(first < second);
    }
}

#[test]
fn stress_snowflake() {
    let mut generator = Snowflake::new();
    let cap = 2usize.pow(12);
    let mut snowflakes = HashSet::with_capacity(cap);

    for _ in 0..cap {
        let snowflake = next_id(&mut generator);

        assert!(!snowflakes.contains(&snowflake));

        snowflakes.insert(snowflake);
    }
}

#[test]
fn constant() {
    let mut generator = Snowflake::new();
    let constant = 2i64.pow(10 - 1);

    load_constant(&mut generator, constant);

    let snowflake = next_id(&mut generator);

    assert_eq!((snowflake >> 12) & (2i64.pow(10) - 1), constant);

    load_constant(&mut generator, 0);
}

#[test]
fn epoch_is_twelfth_of_august_2022() {
    assert_eq!(epoch(), 1660262400000);
}

#[test]
fn first_request_at_timestamp_zero_waits() {
    let mut generator = Snowflake::new();
    assert_eq!(next(&mut generator, 0), None);
    assert_eq!(next(&mut generator, 0), None);
    assert_eq!(next(&mut generator, 1), Some((1 << 22) | 1));
}

#[test]
fn id_layout_exact_value() {
    let mut generator = Snowflake::new();
    load_constant(&mut generator, 3);
    assert_eq!(next(&mut generator, 1000), Some(4194316289));
    assert_eq!(next(&mut generator, 1000), None);
    assert_eq!(next(&mut generator, 1001), Some(4198510594));
}

#[test]
fn fields_of_issued_id() {
    let mut generator = Snowflake::new();
    load_constant(&mut generator, 1023);
    let timestamp = 123_456_789;
    let id = next(&mut generator, timestamp).unwrap();
    assert_eq!(id >> 22, timestamp);
    assert_eq!((id >> 12) & 1023, 1023);
    assert_eq!(id & 4095, 1);
}

#[test]
fn cycle_start_timestamp_is_blocked_for_whole_cycle() {
    let mut generator = Snowflake::new();
    assert!(next(&mut generator, 10).is_some());
    assert!(next(&mut generator, 11).is_some());
    assert_eq!(next(&mut generator, 10), None);
    assert!(next(&mut generator, 12).is_some());
}

#[test]
fn increment_wraps_to_zero() {
    let mut generator = Snowflake::new();
    let mut ids = Vec::new();
    // First ID of the cycle at 1, the rest at 2.
    ids.push(next(&mut generator, 1).unwrap());
    for _ in 1..INCREMENT_MAX {
        ids.push(next(&mut generator, 2).unwrap());
    }
    assert_eq!(ids.len(), 4096);
    assert_eq!(ids[4094] & 4095, 4095);
    let wrapped = ids[4095];
    assert_eq!(wrapped & 4095, 0);
    // Wrapping within the same millisecond gives a smaller ID: the one exception to the order.
    assert!(wrapped < ids[4094]);
    // The new cycle may start at 2 (its start differs from the old one) and continues upward.
    let next_cycle = next(&mut generator, 2).unwrap();
    assert_eq!(next_cycle & 4095, 1);
    assert!(next_cycle > wrapped);
    assert_eq!(next(&mut generator, 2), None);
    let set: HashSet<i64> = ids.iter().copied().chain(std::iter::once(next_cycle)).collect();
    assert_eq!(set.len(), 4097);
}

#[test]
fn timestamp_past_2_to_41_wraps_negative() {
    let mut generator = Snowflake::new();
    let id = next(&mut generator, 1i64 << 41).unwrap();
    assert!(id < 0);
    assert_eq!(((id as u64) >> 22) as i64, 1i64 << 41);
}

#[test]
fn negative_timestamp_keeps_low_bits() {
    let mut generator = Snowflake::new();
    let id = next(&mut generator, -1).unwrap();
    assert_eq!((id as u64) >> 22, (1u64 << 42) - 1);
    assert_eq!(id & 4095, 1);
}

#[test]
fn stale_timestamp_after_a_full_cycle_is_refused() {
    let mut generator = Snowflake::new();
    let first = next(&mut generator, 1).unwrap();
    let at_two = next(&mut generator, 2).unwrap();
    let mut ids = vec![first, at_two];
    for _ in 0..4093 {
        ids.push(next(&mut generator, 2).unwrap());
    }
    // The wrap to increment 0, still at 2.
    ids.push(next(&mut generator, 2).unwrap());
    assert_eq!(ids.last().unwrap() & 4095, 0);
    // A new cycle starts at 3.
    ids.push(next(&mut generator, 3).unwrap());
    // A request whose reading went stale (2) is refused rather than repeating `at_two`.
    assert_eq!(next(&mut generator, 2), None);
    assert_eq!(next(&mut generator, 1), None);
    let after = next(&mut generator, 4).unwrap();
    assert_ne!(after, at_two);
    ids.push(after);
    let set: HashSet<i64> = ids.iter().copied().collect();
    assert_eq!(set.len(), ids.len());
}

#[test]
fn many_cycles_with_stale_requests_stay_unique() {
    let mut generator = Snowflake::new();
    let mut seen = HashSet::new();
    let mut issued = 0usize;
    let mut last_timestamp_field = 0i64;
    // Timestamps advance every 1000 requests and every 7th request presents a stale reading.
    for request in 0..(10 * 4096 + 123) {
        let fresh = 1 + (request / 1000) as i64;
        let timestamp = if request % 7 == 3 { fresh - 2 } else { fresh };
        if timestamp < 0 {
            continue;
        }
        if let Some(id) = next(&mut generator, timestamp) {
            assert!(seen.insert(id));
            assert!(id >> 22 >= last_timestamp_field);
            last_timestamp_field = id >> 22;
            issued += 1;
        }
    }
    // Several full increment cycles were crossed.
    assert_eq!(issued, 32840);
}

#[test]
fn stress_snowflake_several_cycles() {
    let mut generator = Snowflake::new();
    let cap = 5 * 2usize.pow(12);
    let mut snowflakes = HashSet::with_capacity(cap);

    for _ in 0..cap {
        let snowflake = next_id(&mut generator);

        assert!(!snowflakes.contains(&snowflake));

        snowflakes.insert(snowflake);
    }
}

#[test]
fn constant_between_requests_changes_only_its_field() {
    let mut generator = Snowflake::new();
    let a = next(&mut generator, 50).unwrap();
    load_constant(&mut generator, 77);
    let b = next(&mut generator, 51).unwrap();
    assert_eq!(b & 4095, ((a & 4095) + 1) % 4096);
    assert_eq!((b >> 12) & 1023, 77);
    assert!(b >> 22 > a >> 22);
}

#[test]
fn timestamps_before_the_epoch_stay_unique_and_ordered() {
    let mut generator = Snowflake::new();
    let mut ids = Vec::new();
    for timestamp in [-3i64, -3, -2, -2, -1, 1, 1, 2] {
        if let Some(id) = next(&mut generator, timestamp) {
            ids.push((timestamp, id));
        }
    }
    let set: HashSet<i64> = ids.iter().map(|(_, id)| *id).collect();
    assert_eq!(set.len(), ids.len());
    for window in ids.windows(2) {
        assert!(window[0].1 >> 22 <= window[1].1 >> 22);
    }
    for (timestamp, id) in &ids {
        assert_eq!(id >> 22, *timestamp);
    }
}
