use tle_propagator::policy::{classify_altitude, determine_sampling_params, Regime, SamplingPolicy};
use tle_propagator::tle::GeodeticFix;

#[test]
fn low_orbit_is_sampled_every_minute_for_a_day() {
    let p = determine_sampling_params(400_000);
    assert_eq!(p, SamplingPolicy { duration_minutes: 1440, interval_seconds: 60 });
}

#[test]
fn medium_orbit_is_sampled_for_three_hours() {
    let p = determine_sampling_params(20_200_000);
    assert_eq!(p, SamplingPolicy { duration_minutes: 180, interval_seconds: 216 });
}

#[test]
fn geostationary_orbit_is_sampled_coarsely_for_a_day() {
    let p = determine_sampling_params(35_786_000);
    assert_eq!(p, SamplingPolicy { duration_minutes: 1440, interval_seconds: 8640 });
}

#[test]
fn band_edges_belong_to_the_upper_band() {
    assert_eq!(classify_altitude(1_999_999), Regime::Low);
    assert_eq!(classify_altitude(2_000_000), Regime::Medium);
    assert_eq!(classify_altitude(35_785_999), Regime::Medium);
    assert_eq!(classify_altitude(35_786_000), Regime::Geostationary);
    assert_eq!(classify_altitude(0), Regime::Low);
    assert_eq!(classify_altitude(i64::MAX), Regime::Geostationary);
}

#[test]
fn altitudes_below_the_surface_count_as_low() {
    assert_eq!(classify_altitude(-1), Regime::Low);
    assert_eq!(classify_altitude(i64::MIN), Regime::Low);
}

#[test]
fn every_altitude_has_exactly_one_regime() {
    let mut altitude: i64 = 0;
    while altitude < 40_000_000 {
        let low = altitude < 2_000_000;
        let medium = 2_000_000 <= altitude && altitude < 35_786_000;
        let high = altitude >= 35_786_000;
        assert_eq!(low as u8 + medium as u8 + high as u8, 1);
        let expected = if low {
            Regime::Low
        } else if medium {
            Regime::Medium
        } else {
            Regime::Geostationary
        };
        assert_eq!(classify_altitude(altitude), expected);
        altitude += 99_991;
    }
}

#[test]
fn fix_on_the_globe_is_accepted() {
    let fix = GeodeticFix::new(90_000_000, -180_000_000, 400_000);
    assert_eq!(
        fix,
        Some(GeodeticFix { latitude: 90_000_000, longitude: -180_000_000, altitude: 400_000 })
    );
    assert!(fix.unwrap().is_in_range());
}

#[test]
fn fix_off_the_globe_is_refused() {
    assert_eq!(GeodeticFix::new(90_000_001, 0, 0), None);
    assert_eq!(GeodeticFix::new(-90_000_001, 0, 0), None);
    assert_eq!(GeodeticFix::new(0, 180_000_001, 0), None);
    assert_eq!(GeodeticFix::new(0, -180_000_001, 0), None);
}
