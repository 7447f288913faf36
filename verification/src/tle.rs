//! The message that starts a session and the sample that a session yields.

use vstd::prelude::*;
use crate::clock::Timestamp;

verus! {

/// Largest latitude, in microdegrees.
pub const MAX_LATITUDE: i64 = 90_000_000;

/// Largest longitude, in microdegrees.
pub const MAX_LONGITUDE: i64 = 180_000_000;

/// Nanoseconds in one second.
pub const NANOS_PER_SECOND: u32 = 1_000_000_000;

/// An orbital-element update as it arrives on the update channel.
#[derive(Debug, Clone)]
pub struct TLEUpdate {
    pub id: String,
    pub line_1: String,
    pub line_2: String,
    pub epoch: String,
}

/// An update as plain values.
pub struct UpdateView {
    pub id: Seq<char>,
    pub line_1: Seq<char>,
    pub line_2: Seq<char>,
    pub epoch: Seq<char>,
}

impl View for TLEUpdate {
    type V = UpdateView;

    open spec fn view(&self) -> UpdateView {
        UpdateView { id: self.id@, line_1: self.line_1@, line_2: self.line_2@, epoch: self.epoch@ }
    }
}

/// A position over a spherical Earth: latitude and longitude in
/// microdegrees, altitude in whole metres above the mean radius, rounded
/// down, so that an altitude below a band's edge stays below it.
#[derive(Debug, Clone, Copy, PartialEq, Eq, Structural)]
pub struct GeodeticFix {
    pub latitude: i64,
    pub longitude: i64,
    pub altitude: i64,
}

impl GeodeticFix {
    /// Latitude within a quarter turn of the equator, longitude within half
    /// a turn of the prime meridian.
    pub open spec fn in_range(self) -> bool {
        &&& -MAX_LATITUDE <= self.latitude <= MAX_LATITUDE
        &&& -MAX_LONGITUDE <= self.longitude <= MAX_LONGITUDE
    }

    /// Tells whether the fix lies on the globe.
    pub fn is_in_range(&self) -> (r: bool)
        ensures
            r == self.in_range(),
    {
        -MAX_LATITUDE <= self.latitude && self.latitude <= MAX_LATITUDE
            && -MAX_LONGITUDE <= self.longitude && self.longitude <= MAX_LONGITUDE
    }

    /// Builds a fix, refusing coordinates that lie off the globe.
    pub fn new(latitude: i64, longitude: i64, altitude: i64) -> (r: Option<GeodeticFix>)
        ensures
            r == (if (GeodeticFix { latitude, longitude, altitude }).in_range() {
                Some(GeodeticFix { latitude, longitude, altitude })
            } else {
                None
            }),
    {
        let fix = GeodeticFix { latitude, longitude, altitude };
        if fix.is_in_range() {
            Some(fix)
        } else {
            None
        }
    }
}

/// One predicted ground-track sample.
#[derive(Debug, Clone)]
pub struct SatellitePosition {
    pub id: String,
    /// Whole seconds since the Unix epoch, UTC.
    pub epoch_seconds: i64,
    /// Nanoseconds past `epoch_seconds`.
    pub subsec_nanos: u32,
    /// Microdegrees north of the equator.
    pub latitude: i64,
    /// Microdegrees east of the prime meridian.
    pub longitude: i64,
    /// Whole metres above the mean Earth radius, rounded down.
    pub altitude: i64,
}

/// What a sample is, as plain values.
pub struct PositionView {
    pub id: Seq<char>,
    pub epoch_seconds: int,
    pub subsec_nanos: int,
    pub latitude: int,
    pub longitude: int,
    pub altitude: int,
}

impl View for SatellitePosition {
    type V = PositionView;

    open spec fn view(&self) -> PositionView {
        PositionView {
            id: self.id@,
            epoch_seconds: self.epoch_seconds as int,
            subsec_nanos: self.subsec_nanos as int,
            latitude: self.latitude as int,
            longitude: self.longitude as int,
            altitude: self.altitude as int,
        }
    }
}

impl PositionView {
    /// The sample's coordinates lie on the globe and its sub-second part is
    /// less than a second.
    pub open spec fn wf(self) -> bool {
        &&& -MAX_LATITUDE <= self.latitude <= MAX_LATITUDE
        &&& -MAX_LONGITUDE <= self.longitude <= MAX_LONGITUDE
        &&& 0 <= self.subsec_nanos < NANOS_PER_SECOND
    }
}

impl SatellitePosition {
    /// The sample's coordinates lie on the globe and its sub-second part is
    /// less than a second.
    pub open spec fn wf(&self) -> bool {
        self@.wf()
    }

    /// The sample's instant.
    pub fn timestamp(&self) -> (r: Timestamp)
        ensures
            r.seconds == self.epoch_seconds,
            r.nanos == self.subsec_nanos,
    {
        Timestamp { seconds: self.epoch_seconds, nanos: self.subsec_nanos }
    }

    /// The sample's coordinates.
    pub fn fix(&self) -> (r: GeodeticFix)
        ensures
            r.latitude == self.latitude,
            r.longitude == self.longitude,
            r.altitude == self.altitude,
    {
        GeodeticFix { latitude: self.latitude, longitude: self.longitude, altitude: self.altitude }
    }
}

} // verus!
