//! The altitude-dependent sampling cadence.

use vstd::prelude::*;

verus! {

/// Altitude, in metres, at which low orbit ends.
pub const LOW_ORBIT_CEILING: i64 = 2_000_000;

/// Altitude, in metres, of the geostationary belt.
pub const GEOSTATIONARY_FLOOR: i64 = 35_786_000;

/// Longest window that a policy may span, in minutes.
pub const MAX_DURATION_MINUTES: u64 = 1440;

/// Longest step that a policy may take, in seconds.
pub const MAX_INTERVAL_SECONDS: u64 = 86_400;

/// A coarse classification of an orbit by its altitude.
#[derive(Debug, Clone, Copy, PartialEq, Eq, Structural)]
pub enum Regime {
    Low,
    Medium,
    Geostationary,
}

/// How long a session looks ahead and how far apart its samples lie.
#[derive(Debug, Clone, Copy, PartialEq, Eq, Structural)]
pub struct SamplingPolicy {
    pub duration_minutes: u64,
    pub interval_seconds: u64,
}

impl SamplingPolicy {
    /// The step is positive and both fields stay within a day.
    pub open spec fn wf(self) -> bool {
        &&& 1 <= self.interval_seconds <= MAX_INTERVAL_SECONDS
        &&& self.duration_minutes <= MAX_DURATION_MINUTES
    }

    /// The window in seconds.
    pub open spec fn duration_seconds(self) -> int {
        self.duration_minutes * 60
    }

    /// Number of samples in a session in which every step succeeds.
    pub open spec fn full_count(self) -> int
        recommends
            self.wf(),
    {
        self.duration_seconds() / (self.interval_seconds as int) + 1
    }
}

/// Altitudes below the low-orbit ceiling.
pub open spec fn in_low_band(altitude: int) -> bool {
    altitude < LOW_ORBIT_CEILING
}

/// Altitudes from the low-orbit ceiling up to the geostationary belt.
pub open spec fn in_medium_band(altitude: int) -> bool {
    LOW_ORBIT_CEILING <= altitude < GEOSTATIONARY_FLOOR
}

/// Altitudes at or above the geostationary belt.
pub open spec fn in_geostationary_band(altitude: int) -> bool {
    GEOSTATIONARY_FLOOR <= altitude
}

/// The regime that an altitude in metres belongs to.
pub open spec fn regime_of(altitude: int) -> Regime {
    if altitude < LOW_ORBIT_CEILING {
        Regime::Low
    } else if altitude < GEOSTATIONARY_FLOOR {
        Regime::Medium
    } else {
        Regime::Geostationary
    }
}

/// The cadence of each regime.
pub open spec fn policy_of(regime: Regime) -> SamplingPolicy {
    match regime {
        Regime::Low => SamplingPolicy { duration_minutes: 1440, interval_seconds: 60 },
        Regime::Medium => SamplingPolicy { duration_minutes: 180, interval_seconds: 216 },
        Regime::Geostationary => SamplingPolicy { duration_minutes: 1440, interval_seconds: 8640 },
    }
}

/// The policy is the cadence of one of the three regimes.
pub open spec fn is_regime_cadence(policy: SamplingPolicy) -> bool {
    ||| policy == policy_of(Regime::Low)
    ||| policy == policy_of(Regime::Medium)
    ||| policy == policy_of(Regime::Geostationary)
}

/// Most samples that any session holds: a low orbit's day, minute by minute.
pub const MAX_SAMPLES: u64 = 1441;

/// Classifies an altitude given in metres.
pub fn classify_altitude(altitude: i64) -> (r: Regime)
    ensures
        r == regime_of(altitude as int),
{
    if altitude < LOW_ORBIT_CEILING {
        Regime::Low
    } else if altitude < GEOSTATIONARY_FLOOR {
        Regime::Medium
    } else {
        Regime::Geostationary
    }
}

/// Picks the sampling cadence for an altitude given in metres.
pub fn determine_sampling_params(altitude: i64) -> (r: SamplingPolicy)
    ensures
        r == policy_of(regime_of(altitude as int)),
        r.wf(),
{
    match classify_altitude(altitude) {
        Regime::Low => SamplingPolicy { duration_minutes: 1440, interval_seconds: 60 },
        Regime::Medium => SamplingPolicy { duration_minutes: 180, interval_seconds: 216 },
        Regime::Geostationary => SamplingPolicy { duration_minutes: 1440, interval_seconds: 8640 },
    }
}

/// Every altitude lies in exactly one band, and that band names its regime.
pub proof fn lemma_bands_partition(altitude: int)
    ensures
        in_low_band(altitude) || in_medium_band(altitude) || in_geostationary_band(altitude),
        !(in_low_band(altitude) && in_medium_band(altitude)),
        !(in_low_band(altitude) && in_geostationary_band(altitude)),
        !(in_medium_band(altitude) && in_geostationary_band(altitude)),
        in_low_band(altitude) <==> regime_of(altitude) == Regime::Low,
        in_medium_band(altitude) <==> regime_of(altitude) == Regime::Medium,
        in_geostationary_band(altitude) <==> regime_of(altitude) == Regime::Geostationary,
{
}

/// Every regime's cadence is well formed and yields a whole number of
/// steps: 1441, 51 and 11 samples.
pub proof fn lemma_policy_counts(regime: Regime)
    ensures
        policy_of(regime).wf(),
        policy_of(regime).duration_seconds() % (policy_of(regime).interval_seconds as int) == 0,
        policy_of(Regime::Low).full_count() == 1441,
        policy_of(Regime::Medium).full_count() == 51,
        policy_of(Regime::Geostationary).full_count() == 11,
{
}

} // verus!
