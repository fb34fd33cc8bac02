//! Track points together with the metrics derived for them.

use vstd::prelude::*;

verus! {

/// Largest latitude, in units of 10^-7 degrees.
pub const MAX_LATITUDE: i64 = 900_000_000;

/// Largest longitude, in units of 10^-7 degrees.
pub const MAX_LONGITUDE: i64 = 1_800_000_000;

/// Largest magnitude of an instant, in milliseconds either side of the epoch,
/// of an elevation and of a temperature. Any two values within it differ by
/// less than `i64::MAX`.
pub const MAX_MAGNITUDE: i64 = 4_000_000_000_000_000_000;

/// A place on the globe, in units of 10^-7 degrees.
#[derive(Clone, Copy, Debug, PartialEq, Eq, Structural)]
pub struct Position {
    pub lat: i64,
    pub lon: i64,
}

/// Is `lat` a latitude between the poles?
pub open spec fn latitude_in_range(lat: i64) -> bool {
    -MAX_LATITUDE <= lat <= MAX_LATITUDE
}

/// Is `lon` a longitude between the two sides of the antimeridian?
pub open spec fn longitude_in_range(lon: i64) -> bool {
    -MAX_LONGITUDE <= lon <= MAX_LONGITUDE
}

/// Is `v` an instant, an elevation or a temperature whose differences with
/// other such values fit in `i64`?
pub open spec fn magnitude_in_range(v: i64) -> bool {
    -MAX_MAGNITUDE <= v <= MAX_MAGNITUDE
}

/// `later - earlier` where both are known and the difference fits in `i64`.
pub open spec fn checked_difference(later: Option<i64>, earlier: Option<i64>) -> Option<i64> {
    match (later, earlier) {
        (Some(l), Some(e)) => if i64::MIN <= l - e <= i64::MAX {
            Some((l - e) as i64)
        } else {
            None
        },
        _ => None,
    }
}

/// `later - earlier` where both are known and the difference fits in `i64`.
pub fn difference(later: Option<i64>, earlier: Option<i64>) -> (d: Option<i64>)
    ensures
        d == checked_difference(later, earlier),
{
    match (later, earlier) {
        (Some(l), Some(e)) => l.checked_sub(e),
        _ => None,
    }
}

/// A GPS fix with the metrics that enrichment derives for it.
#[derive(Clone, Copy, Debug, PartialEq, Eq, Structural)]
pub struct EnrichedTrackPoint {
    /// Position of the point in its track, counted from 0.
    pub index: usize,
    /// Latitude, in units of 10^-7 degrees.
    pub lat: i64,
    /// Longitude, in units of 10^-7 degrees.
    pub lon: i64,
    /// Elevation, in thousandths of a metre.
    pub ele: Option<i64>,
    /// The instant of the fix, in milliseconds since the epoch.
    pub time: Option<i64>,
    /// Heart rate, in beats per minute.
    pub heart_rate: Option<u8>,
    /// Air temperature, in thousandths of a degree Celsius.
    pub air_temp: Option<i64>,
    /// Cadence, in revolutions per minute.
    pub cadence: Option<u8>,
    /// Distance from the previous point, in thousandths of a metre.
    pub delta_metres: Option<u64>,
    /// Distance along the track from its first point, in thousandths of a
    /// metre.
    pub running_metres: u64,
    /// Time since the previous point, in milliseconds.
    pub delta_time: Option<i64>,
    /// Time since the first point, in milliseconds.
    pub running_delta_time: Option<i64>,
    /// Speed over the leg from the previous point, in thousandths of a km/h.
    pub speed_kmh: Option<u64>,
    /// Climb from the previous point, in thousandths of a metre; negative
    /// when descending.
    pub ele_delta_metres: Option<i64>,
    /// All the climbing since the first point, in thousandths of a metre.
    pub running_ascent_metres: Option<u64>,
    /// All the descending since the first point, in thousandths of a metre.
    pub running_descent_metres: Option<u64>,
}

impl EnrichedTrackPoint {
    /// The fix itself is in range: its latitude and longitude and, where it
    /// has them, its elevation, its instant and its air temperature.
    pub open spec fn fix_valid(self) -> bool {
        &&& latitude_in_range(self.lat)
        &&& longitude_in_range(self.lon)
        &&& (self.ele matches Some(e) ==> magnitude_in_range(e))
        &&& (self.time matches Some(t) ==> magnitude_in_range(t))
        &&& (self.air_temp matches Some(t) ==> magnitude_in_range(t))
    }

    /// The instant at which the leg that ends in this point began. The first
    /// point of a track ends no leg and has none.
    pub open spec fn spec_start_time(self) -> Option<i64> {
        checked_difference(self.time, self.delta_time)
    }

    pub open spec fn position(self) -> Position {
        Position { lat: self.lat, lon: self.lon }
    }

    /// A point at `(lat, lon)` with nothing else known of it.
    pub fn new(index: usize, lat: i64, lon: i64) -> (p: Self)
        ensures
            p == (EnrichedTrackPoint {
                index,
                lat,
                lon,
                ele: None,
                time: None,
                heart_rate: None,
                air_temp: None,
                cadence: None,
                delta_metres: None,
                running_metres: 0,
                delta_time: None,
                running_delta_time: None,
                speed_kmh: None,
                ele_delta_metres: None,
                running_ascent_metres: None,
                running_descent_metres: None,
            }),
    {
        EnrichedTrackPoint {
            index,
            lat,
            lon,
            ele: None,
            time: None,
            heart_rate: None,
            air_temp: None,
            cadence: None,
            delta_metres: None,
            running_metres: 0,
            delta_time: None,
            running_delta_time: None,
            speed_kmh: None,
            ele_delta_metres: None,
            running_ascent_metres: None,
            running_descent_metres: None,
        }
    }

    /// The instant at which the leg that ends in this point began.
    pub fn start_time(&self) -> (t: Option<i64>)
        ensures
            t == self.spec_start_time(),
    {
        difference(self.time, self.delta_time)
    }

    /// Where the point lies.
    pub fn as_position(&self) -> (p: Position)
        ensures
            p == self.position(),
    {
        Position { lat: self.lat, lon: self.lon }
    }
}

} // verus!
