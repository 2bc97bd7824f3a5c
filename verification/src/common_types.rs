//! Geodetic value types shared by the project and survey grammars.
//!
//! Measurements are exact decimals held as integer counts of
//! ten-thousandths, and coordinates as integer counts of
//! hundred-millionths of a meter, so that the foot-to-meter conversion
//! (0.3048 meters per foot, exactly) and the fixed-precision text forms
//! lose nothing.
use vstd::prelude::*;

verus! {

/// An exact decimal number, stored as a count of ten-thousandths
/// (four fractional decimal digits of resolution).
#[derive(Clone, Copy, Debug, PartialEq, Eq, Structural)]
pub struct Decimal {
    /// The value multiplied by 10_000.
    pub units: i64,
}

impl Decimal {
    /// The decimal with the given count of ten-thousandths.
    pub fn from_units(units: i64) -> (r: Decimal)
        ensures
            r.units == units,
    {
        Decimal { units }
    }

    /// The decimal equal to the given whole number.
    pub fn from_int(v: i64) -> (r: Decimal)
        requires
            -922_337_203_685_477 <= v <= 922_337_203_685_477,
        ensures
            r.units == v * 10_000,
    {
        Decimal { units: v * 10_000 }
    }

    /// The decimal equal to `h` hundredths.
    pub fn from_hundredths(h: i64) -> (r: Decimal)
        requires
            -92_233_720_368_547_758 <= h <= 92_233_720_368_547_758,
        ensures
            r.units == h * 100,
    {
        Decimal { units: h * 100 }
    }
}

/// Largest magnitude, in ten-thousandths, that a coordinate component may
/// have: the conversions to hundred-millionths of a meter must not
/// overflow a 64-bit count.
pub const COORD_UNITS_MAX: i64 = 922_337_203_685_477;

/// The coordinate built from `east`, `north` and `up` meters, each given
/// in ten-thousandths.  Exact when each component's magnitude stays
/// within `COORD_UNITS_MAX`.
pub open spec fn spec_from_meters(east: i64, north: i64, up: i64) -> EastNorthElevation {
    EastNorthElevation {
        easting: (east * 10_000) as i64,
        northing: (north * 10_000) as i64,
        up: (up * 10_000) as i64,
    }
}

/// The coordinate built from `east`, `north` and `up` feet, each given in
/// ten-thousandths: one foot is exactly 0.3048 meters, so one
/// ten-thousandth of a foot is exactly 3048 hundred-millionths of a
/// meter.  Exact when each component's magnitude stays within
/// `COORD_UNITS_MAX`.
pub open spec fn spec_from_feet(east: i64, north: i64, up: i64) -> EastNorthElevation {
    EastNorthElevation {
        easting: (east * 3048) as i64,
        northing: (north * 3048) as i64,
        up: (up * 3048) as i64,
    }
}

/// East, north and elevation, always in meters, held as integer counts
/// of hundred-millionths of a meter.
#[derive(Clone, Copy, Debug, PartialEq, Eq, Structural)]
pub struct EastNorthElevation {
    /// Easting in hundred-millionths of a meter.
    pub easting: i64,
    /// Northing in hundred-millionths of a meter.
    pub northing: i64,
    /// Elevation in hundred-millionths of a meter.
    pub up: i64,
}

impl EastNorthElevation {
    /// Build a coordinate from components measured in meters.
    pub fn from_meters(easting: Decimal, northing: Decimal, up: Decimal) -> (r:
        EastNorthElevation)
        requires
            -COORD_UNITS_MAX <= easting.units <= COORD_UNITS_MAX,
            -COORD_UNITS_MAX <= northing.units <= COORD_UNITS_MAX,
            -COORD_UNITS_MAX <= up.units <= COORD_UNITS_MAX,
        ensures
            r == spec_from_meters(easting.units, northing.units, up.units),
    {
        EastNorthElevation {
            easting: easting.units * 10_000,
            northing: northing.units * 10_000,
            up: up.units * 10_000,
        }
    }

    /// Build a coordinate from components measured in feet.
    pub fn from_feet(easting: Decimal, northing: Decimal, up: Decimal) -> (r: EastNorthElevation)
        requires
            -COORD_UNITS_MAX <= easting.units <= COORD_UNITS_MAX,
            -COORD_UNITS_MAX <= northing.units <= COORD_UNITS_MAX,
            -COORD_UNITS_MAX <= up.units <= COORD_UNITS_MAX,
        ensures
            r == spec_from_feet(easting.units, northing.units, up.units),
    {
        EastNorthElevation {
            easting: easting.units * 3048,
            northing: northing.units * 3048,
            up: up.units * 3048,
        }
    }
}

/// A coordinate built from feet measures exactly 0.3048 meters per foot:
/// scaled by ten thousand it equals the meters-built coordinate of the
/// same numbers scaled by 3048.
pub proof fn lemma_feet_to_meters_exact(east: i64, north: i64, up: i64)
    requires
        -COORD_UNITS_MAX <= east <= COORD_UNITS_MAX,
        -COORD_UNITS_MAX <= north <= COORD_UNITS_MAX,
        -COORD_UNITS_MAX <= up <= COORD_UNITS_MAX,
    ensures
        spec_from_feet(east, north, up).easting * 10_000 == spec_from_meters(
            east,
            north,
            up,
        ).easting * 3048,
        spec_from_feet(east, north, up).northing * 10_000 == spec_from_meters(
            east,
            north,
            up,
        ).northing * 3048,
        spec_from_feet(east, north, up).up * 10_000 == spec_from_meters(east, north, up).up
            * 3048,
{
    assert(east * 3048 * 10_000 == east * 10_000 * 3048) by (nonlinear_arith);
    assert(north * 3048 * 10_000 == north * 10_000 * 3048) by (nonlinear_arith);
    assert(up * 3048 * 10_000 == up * 10_000 * 3048) by (nonlinear_arith);
}

/// A point on a universal-transverse-mercator grid: a coordinate, the
/// grid zone, and the convergence angle in decimal degrees.
#[derive(Clone, Copy, Debug, PartialEq, Eq, Structural)]
pub struct UtmLocation {
    pub east_north_elevation: EastNorthElevation,
    pub zone: u8,
    pub convergence_angle: Decimal,
}

/// A calendar date as written in survey headers.
#[derive(Clone, Copy, Debug, PartialEq, Eq, Structural)]
pub struct Date {
    pub month: u8,
    pub day: u8,
    pub year: u16,
}

} // verus!
