use tle_propagator::policy::SamplingPolicy;
use tle_propagator::propagation::{PropagationSession, SessionPhase, Strictness};
use tle_propagator::tle::{GeodeticFix, TLEUpdate};

const LINE_1: &str = "1 25544U 98067A   20194.88612269 -.00002218  00000-0 -31515-4 0  9992";
const LINE_2: &str = "2 25544  51.6461 221.2784 0001413  89.1723 280.4612 15.49507896236008";
const START: i64 = 1_700_000_000;

fn fix_at(altitude: i64) -> GeodeticFix {
    GeodeticFix { latitude: 10_000_000, longitude: -20_000_000, altitude }
}

fn run(strictness: Strictness, altitude: i64, fail_at: &[u64]) -> PropagationSession {
    let mut session = PropagationSession::begin("25544".to_string(), START, 7, strictness, true);
    let mut step: u64 = 0;
    while let Some(_) = session.next_offset() {
        if fail_at.contains(&step) {
            session.record(None);
        } else {
            session.record(Some(fix_at(altitude)));
        }
        step += 1;
    }
    session
}

fn geodetic(position: [f64; 3]) -> Option<GeodeticFix> {
    let [x, y, z] = position;
    let r = (x * x + y * y + z * z).sqrt();
    if !r.is_finite() || r == 0.0 {
        return None;
    }
    let latitude = (z / r).asin().to_degrees();
    let longitude = y.atan2(x).to_degrees();
    let altitude = r - 6371.0;
    GeodeticFix::new(
        (latitude * 1e6).round() as i64,
        (longitude * 1e6).round() as i64,
        (altitude * 1e3).floor() as i64,
    )
}

#[test]
fn low_orbit_session_yields_1441_samples_a_minute_apart() {
    let session = run(Strictness::BestEffort, 400_000, &[]);
    assert_eq!(session.phase, SessionPhase::Completed);
    assert_eq!(session.policy, Some(SamplingPolicy { duration_minutes: 1440, interval_seconds: 60 }));
    assert_eq!(session.failures, 0);
    assert_eq!(session.attempts, 1441);
    let samples = session.into_samples();
    assert_eq!(samples.len(), 1441);
    for (i, s) in samples.iter().enumerate() {
        assert_eq!(s.epoch_seconds, START + 60 * i as i64);
        assert_eq!(s.subsec_nanos, 7);
        assert_eq!(s.id, "25544");
        assert_eq!(s.fix(), fix_at(400_000));
    }
    assert_eq!(samples[1440].epoch_seconds, START + 86_400);
}

#[test]
fn medium_orbit_session_yields_51_samples() {
    let samples = run(Strictness::BestEffort, 20_200_000, &[]).into_samples();
    assert_eq!(samples.len(), 51);
    assert_eq!(samples[50].epoch_seconds, START + 10_800);
    assert_eq!(samples[1].epoch_seconds - samples[0].epoch_seconds, 216);
}

#[test]
fn geostationary_session_yields_11_samples() {
    let samples = run(Strictness::FailFast, 35_786_000, &[]).into_samples();
    assert_eq!(samples.len(), 11);
    assert_eq!(samples[10].epoch_seconds, START + 86_400);
    assert_eq!(samples[1].epoch_seconds - samples[0].epoch_seconds, 8640);
}

#[test]
fn cadence_is_fixed_by_the_first_fix() {
    let mut session =
        PropagationSession::begin("x".to_string(), 0, 0, Strictness::BestEffort, true);
    assert_eq!(session.next_offset(), Some(0));
    session.record(Some(fix_at(36_000_000)));
    assert_eq!(session.next_offset(), Some(8640));
    session.record(Some(fix_at(300_000)));
    assert_eq!(session.next_offset(), Some(17_280));
    assert_eq!(
        session.policy,
        Some(SamplingPolicy { duration_minutes: 1440, interval_seconds: 8640 })
    );
}

#[test]
fn best_effort_skips_a_failed_step() {
    let session = run(Strictness::BestEffort, 36_000_000, &[3, 4]);
    assert_eq!(session.phase, SessionPhase::Completed);
    assert_eq!(session.failures, 2);
    assert_eq!(session.attempts, 11);
    let times: Vec<i64> = session.samples.iter().map(|s| s.epoch_seconds - START).collect();
    assert_eq!(times, vec![0, 8640, 17_280, 43_200, 51_840, 60_480, 69_120, 77_760, 86_400]);
}

#[test]
fn fail_fast_gives_up_its_samples() {
    let session = run(Strictness::FailFast, 36_000_000, &[3]);
    assert_eq!(session.phase, SessionPhase::Completed);
    assert_eq!(session.failures, 1);
    assert_eq!(session.attempts, 4);
    assert!(session.is_finished());
    assert_eq!(session.next_offset(), None);
    assert!(session.into_samples().is_empty());
}

#[test]
fn failure_before_any_fix_ends_the_session() {
    for strictness in [Strictness::BestEffort, Strictness::FailFast] {
        let session = run(strictness, 400_000, &[0]);
        assert_eq!(session.phase, SessionPhase::Completed);
        assert_eq!(session.policy, None);
        assert_eq!(session.failures, 1);
        assert!(session.into_samples().is_empty());
    }
}

#[test]
fn fix_off_the_globe_counts_as_a_failure() {
    let mut session =
        PropagationSession::begin("x".to_string(), 0, 0, Strictness::BestEffort, true);
    session.record(Some(fix_at(36_000_000)));
    session.record(Some(GeodeticFix { latitude: 90_000_001, longitude: 0, altitude: 0 }));
    assert_eq!(session.failures, 1);
    assert_eq!(session.samples.len(), 1);
    assert_eq!(session.next_offset(), Some(17_280));
}

#[test]
fn rejected_session_never_propagates() {
    let mut session =
        PropagationSession::begin("x".to_string(), 0, 0, Strictness::BestEffort, false);
    assert_eq!(session.phase, SessionPhase::Rejected);
    assert_eq!(session.next_offset(), None);
    session.record(Some(fix_at(400_000)));
    assert_eq!(session.phase, SessionPhase::Rejected);
    assert_eq!(session.attempts, 0);
    assert!(session.into_samples().is_empty());
}

#[test]
fn completed_session_ignores_further_outcomes() {
    let mut session = run(Strictness::BestEffort, 36_000_000, &[]);
    session.record(Some(fix_at(400_000)));
    session.record(None);
    assert_eq!(session.attempts, 11);
    assert_eq!(session.failures, 0);
    assert_eq!(session.samples.len(), 11);
}

#[test]
fn session_at_the_latest_start_does_not_overflow() {
    let start = tle_propagator::propagation::MAX_START_SECONDS;
    let mut session =
        PropagationSession::begin("x".to_string(), start, 999_999_999, Strictness::FailFast, true);
    while let Some(_) = session.next_offset() {
        session.record(Some(fix_at(36_000_000)));
    }
    assert_eq!(session.samples[10].epoch_seconds, i64::MAX);
}

#[test]
fn open_on_valid_elements_propagates_a_low_orbit() {
    let update = TLEUpdate {
        id: "25544".to_string(),
        line_1: LINE_1.to_string(),
        line_2: LINE_2.to_string(),
        epoch: "2020-07-12T21:16:01Z".to_string(),
    };
    let (mut session, model) = PropagationSession::open(&update, START, 0, Strictness::BestEffort);
    assert_eq!(session.phase, SessionPhase::Propagating);
    let model = model.expect("the elements are valid");
    while let Some(offset) = session.next_offset() {
        let minutes = sgp4::MinutesSinceEpoch(offset as f64 / 60.0);
        let outcome = match model.constants.propagate(minutes) {
            Ok(prediction) => geodetic(prediction.position),
            Err(_) => None,
        };
        session.record(outcome);
    }
    assert_eq!(session.policy, Some(SamplingPolicy { duration_minutes: 1440, interval_seconds: 60 }));
    assert_eq!(session.failures, 0);
    assert_eq!(session.samples.len(), 1441);
    for s in session.samples.iter() {
        assert!(s.altitude > 350_000 && s.altitude < 500_000);
        assert!(s.latitude.abs() <= 52_000_000);
        assert!(s.longitude.abs() <= 180_000_000);
    }
}

#[test]
fn open_on_a_bad_checksum_is_rejected() {
    let mut line_1 = LINE_1.to_string();
    line_1.pop();
    line_1.push('3');
    let update = TLEUpdate {
        id: "25544".to_string(),
        line_1,
        line_2: LINE_2.to_string(),
        epoch: String::new(),
    };
    let (session, model) = PropagationSession::open(&update, START, 0, Strictness::BestEffort);
    assert!(model.is_none());
    assert_eq!(session.phase, SessionPhase::Rejected);
    assert_eq!(session.next_offset(), None);
    assert!(session.into_samples().is_empty());
}

#[test]
fn no_session_holds_more_than_1441_samples() {
    for altitude in [0, 1_999_999, 2_000_000, 35_785_999, 35_786_000, 50_000_000] {
        for strictness in [Strictness::BestEffort, Strictness::FailFast] {
            let session = run(strictness, altitude, &[]);
            assert!(session.samples.len() <= 1441);
            let expected = tle_propagator::policy::determine_sampling_params(altitude);
            assert_eq!(session.policy, Some(expected));
        }
    }
}

#[test]
fn cadence_survives_a_skipped_step() {
    let mut session =
        PropagationSession::begin("x".to_string(), 0, 0, Strictness::BestEffort, true);
    session.record(Some(fix_at(20_000_000)));
    session.record(None);
    session.record(Some(fix_at(100_000)));
    assert_eq!(session.policy, Some(SamplingPolicy { duration_minutes: 180, interval_seconds: 216 }));
    assert_eq!(session.next_offset(), Some(648));
    assert_eq!(session.samples[0].altitude, 20_000_000);
}
