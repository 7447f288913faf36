use tle_propagator::clock::Timestamp;
use tle_propagator::propagation::Strictness;
use tle_propagator::sink::{position_key, store_to_redis, PersistSession, SinkAction, StoreError};
use tle_propagator::tle::SatellitePosition;

fn samples(n: i64) -> Vec<SatellitePosition> {
    (0..n)
        .map(|i| SatellitePosition {
            id: "25544".to_string(),
            epoch_seconds: 1_700_000_000 + 60 * i,
            subsec_nanos: 5,
            latitude: 1_000_000 * i,
            longitude: -1_000_000 * i,
            altitude: 400_000,
        })
        .collect()
}

fn drive(sink: &mut PersistSession, fail_at: &[usize]) -> (Vec<usize>, Vec<(Option<i64>, Option<i64>, usize)>) {
    let mut attempted = Vec::new();
    let mut published = Vec::new();
    loop {
        match sink.next_action() {
            SinkAction::Store { index, key, score } => {
                assert_eq!(key, "satellite_positions:25544");
                assert_eq!(score, sink.samples[index].epoch_seconds);
                attempted.push(index);
                sink.record_store(!fail_at.contains(&index));
            }
            SinkAction::Publish { summary } => {
                assert_eq!(summary.satellite_id, "25544");
                published.push((
                    summary.start_time.map(|t| t.seconds),
                    summary.end_time.map(|t| t.seconds),
                    summary.positions_count,
                ));
                sink.record_publish();
            }
            SinkAction::Done => break,
        }
    }
    (attempted, published)
}

#[test]
fn key_is_prefixed() {
    assert_eq!(position_key("25544"), "satellite_positions:25544");
    assert_eq!(position_key(""), "satellite_positions:");
}

#[test]
fn empty_key_is_rejected_before_anything_else() {
    assert_eq!(store_to_redis("", Some("{}".to_string()), 1).err(), Some(StoreError::EmptyKey));
    assert_eq!(store_to_redis("", None, 1).err(), Some(StoreError::EmptyKey));
}

#[test]
fn unencoded_payload_is_rejected() {
    assert_eq!(store_to_redis("k", None, 1).err(), Some(StoreError::Serialization));
}

#[test]
fn command_carries_key_score_and_member() {
    let c = store_to_redis("satellite_positions:1", Some("{\"a\":1}".to_string()), -7).unwrap();
    assert_eq!(c.key, "satellite_positions:1");
    assert_eq!(c.score, -7);
    assert_eq!(c.member, "{\"a\":1}");
}

#[test]
fn all_samples_are_stored_then_one_summary_follows() {
    let mut sink = PersistSession::new("25544".to_string(), samples(1441), Strictness::BestEffort);
    let (attempted, published) = drive(&mut sink, &[]);
    assert_eq!(attempted, (0..1441).collect::<Vec<usize>>());
    assert_eq!(published, vec![(Some(1_700_000_000), Some(1_700_086_400), 1441)]);
    assert!(matches!(sink.next_action(), SinkAction::Done));
}

#[test]
fn no_samples_give_an_empty_summary_and_no_write() {
    let mut sink = PersistSession::new("25544".to_string(), Vec::new(), Strictness::BestEffort);
    let (attempted, published) = drive(&mut sink, &[]);
    assert!(attempted.is_empty());
    assert_eq!(published, vec![(None, None, 0)]);
}

#[test]
fn failed_write_is_skipped_by_default() {
    let mut sink = PersistSession::new("25544".to_string(), samples(5), Strictness::BestEffort);
    let (attempted, published) = drive(&mut sink, &[2]);
    assert_eq!(attempted, vec![0, 1, 2, 3, 4]);
    assert_eq!(published, vec![(Some(1_700_000_000), Some(1_700_000_240), 4)]);
    assert_eq!(sink.outcomes, vec![true, true, false, true, true]);
}

#[test]
fn failed_first_and_last_writes_move_the_summary_times() {
    let mut sink = PersistSession::new("25544".to_string(), samples(5), Strictness::BestEffort);
    let (_, published) = drive(&mut sink, &[0, 4]);
    assert_eq!(published, vec![(Some(1_700_000_060), Some(1_700_000_180), 3)]);
}

#[test]
fn failed_write_ends_a_strict_hand_over_without_summary() {
    let mut sink = PersistSession::new("25544".to_string(), samples(5), Strictness::FailFast);
    let (attempted, published) = drive(&mut sink, &[2]);
    assert_eq!(attempted, vec![0, 1, 2]);
    assert!(published.is_empty());
    assert!(sink.halted);
    let s = sink.summary();
    assert_eq!(s.positions_count, 2);
    assert_eq!(s.end_time, Some(Timestamp { seconds: 1_700_000_060, nanos: 5 }));
}

#[test]
fn records_out_of_turn_change_nothing() {
    let mut sink = PersistSession::new("25544".to_string(), samples(1), Strictness::BestEffort);
    sink.record_publish();
    assert!(!sink.published);
    sink.record_store(true);
    sink.record_store(false);
    assert_eq!(sink.outcomes, vec![true]);
    sink.record_publish();
    assert!(sink.published);
    assert!(matches!(sink.next_action(), SinkAction::Done));
}

#[test]
fn replayed_samples_merge_into_one_member_each() {
    let mut store = std::collections::BTreeMap::new();
    for run in 0..2 {
        let mut sink = PersistSession::new("25544".to_string(), samples(5), Strictness::BestEffort);
        while let SinkAction::Store { index, score, .. } = sink.next_action() {
            let s = &sink.samples[index];
            let member = format!("{}|{}|{}|{}|{}", s.id, s.epoch_seconds, s.subsec_nanos, s.latitude, s.longitude);
            store.insert(member, score);
            sink.record_store(true);
        }
        assert_eq!(store.len(), 5, "run {}", run);
    }
    let scores: Vec<i64> = store.values().copied().collect();
    assert_eq!(
        scores,
        vec![1_700_000_000, 1_700_000_060, 1_700_000_120, 1_700_000_180, 1_700_000_240]
    );
}

#[test]
fn each_failure_has_its_message() {
    assert_eq!(StoreError::EmptyKey.message(), "Empty Redis key");
    assert_eq!(StoreError::Serialization.message(), "Serialization error");
    assert_eq!(StoreError::Connection.message(), "Failed to connect to Redis");
    assert_eq!(StoreError::Write.message(), "Failed to execute ZADD");
}

#[test]
fn refusals_happen_before_anything_is_sent() {
    assert!(StoreError::EmptyKey.is_refusal());
    assert!(StoreError::Serialization.is_refusal());
    assert!(!StoreError::Connection.is_refusal());
    assert!(!StoreError::Write.is_refusal());
}

#[test]
fn sample_instant_is_its_seconds_and_nanos() {
    let s = &samples(2)[1];
    assert_eq!(s.timestamp(), Timestamp { seconds: 1_700_000_060, nanos: 5 });
    assert_eq!(s.timestamp().to_rfc3339(), Some("2023-11-14T22:14:20.000000005+00:00".to_string()));
}
