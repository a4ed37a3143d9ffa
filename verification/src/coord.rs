//! Coordinate types and utilities.
//!
//! Latitudes, longitudes and headings are whole numbers of units of 1e-7 degree, so that
//! `407_467_136` stands for 40.7467136 degrees. Comparisons and sums of such numbers are
//! exact, which is what the rules on valid coordinates and on bounding boxes rest on.
//!
//! Sines and cosines are whole numbers of parts per billion. The library computes none:
//! a caller hands them in, as [`LatCosines`] for the length of a degree at a latitude.
use vstd::prelude::*;
use crate::decimal::{degrees_string, degrees_text};
use crate::{Error, TGResult};

verus! {

/// Units in one degree.
pub const UNITS_PER_DEGREE: i32 = 10_000_000;

/// The largest latitude, 90 degrees; the smallest is its negative.
pub const MAX_LATITUDE: i32 = 900_000_000;

/// The largest longitude, 180 degrees; the smallest is its negative.
pub const MAX_LONGITUDE: i32 = 1_800_000_000;

/// A full turn of a heading, 360 degrees.
pub const FULL_TURN: i64 = 3_600_000_000;

/// A WGS 84 position: latitude, then longitude.
#[derive(Debug, Copy, Clone, PartialEq, Eq, Structural)]
pub struct Point2d(pub i32, pub i32);

/// Bounding box rectangle with corners in WGS 84 coordinates.
#[derive(Debug, Copy, Clone)]
pub struct BBoxWGS {
    pub upper_left: Point2d,
    pub lower_right: Point2d,
}

/// The value 1 of a sine or a cosine: they count parts per billion.
pub const TRIG_ONE: i32 = 1_000_000_000;

/// The cosines of a latitude and of its multiples, in parts per billion: `cos3` is the
/// cosine of three times the latitude.
#[derive(Debug, Copy, Clone, PartialEq, Eq, Structural)]
pub struct LatCosines {
    pub cos1: i32,
    pub cos2: i32,
    pub cos3: i32,
    pub cos4: i32,
    pub cos5: i32,
    pub cos6: i32,
}

/// Whether `lat` is a latitude: between 90 degrees south and 90 degrees north.
pub open spec fn valid_lat(lat: int) -> bool {
    -MAX_LATITUDE <= lat <= MAX_LATITUDE
}

/// Whether `lon` is a longitude: between 180 degrees west and 180 degrees east.
pub open spec fn valid_lon(lon: int) -> bool {
    -MAX_LONGITUDE <= lon <= MAX_LONGITUDE
}

/// The description carried by the error for the latitude `lat`, which is out of range.
pub open spec fn lat_error_text(lat: int) -> Seq<char> {
    "latitude "@ + degrees_text(lat)
}

/// The description carried by the error for the longitude `lon`, which is out of range.
pub open spec fn lon_error_text(lon: int) -> Seq<char> {
    "longitude "@ + degrees_text(lon)
}

/// The arithmetic mean of `a` and `b`, rounded toward zero.
pub open spec fn mean(a: int, b: int) -> int {
    if a + b >= 0 {
        (a + b) / 2
    } else {
        -((-(a + b)) / 2)
    }
}

/// The quotient of `a` by `b`, rounded toward zero; 0 where `b` is 0.
pub open spec fn toward_zero(a: int, b: int) -> int {
    if b == 0 {
        0
    } else if a >= 0 && b > 0 {
        a / b
    } else if a >= 0 {
        -(a / (-b))
    } else if b > 0 {
        -((-a) / b)
    } else {
        (-a) / (-b)
    }
}

/// The length of one degree of latitude in micrometres, at the latitude with the
/// cosines `c`: 111132.92 - 559.82 cos 2φ + 1.175 cos 4φ - 0.0023 cos 6φ metres.
pub open spec fn lat_degree_um(c: LatCosines) -> int {
    toward_zero(
        111_132_920_000 * TRIG_ONE - 559_820_000 * c.cos2 + 1_175_000 * c.cos4 - 2_300 * c.cos6,
        TRIG_ONE as int,
    )
}

/// The length of one degree of longitude in micrometres, at the latitude with the
/// cosines `c`: 111412.84 cos φ - 93.5 cos 3φ + 0.118 cos 5φ metres.
pub open spec fn lon_degree_um(c: LatCosines) -> int {
    toward_zero(
        111_412_840_000 * c.cos1 - 93_500_000 * c.cos3 + 118_000 * c.cos5,
        TRIG_ONE as int,
    )
}

/// The length in whole metres of `span` units of angle, where one degree is
/// `um_per_degree` micrometres long. Neither sign matters; a fraction of a metre is
/// dropped.
pub open spec fn span_meters(um_per_degree: int, span: int) -> int {
    let um_units = um_per_degree * span;
    (if um_units >= 0 {
        um_units
    } else {
        -um_units
    }) / 10_000_000_000_000
}

impl Point2d {
    /// Whether both the latitude and the longitude are in range.
    pub open spec fn is_valid(self) -> bool {
        valid_lat(self.0 as int) && valid_lon(self.1 as int)
    }
}

impl BBoxWGS {
    /// Whether both corners are valid positions.
    pub open spec fn is_valid(self) -> bool {
        self.upper_left.is_valid() && self.lower_right.is_valid()
    }

    /// The point halfway between the corners, each coordinate taken by itself.
    pub open spec fn spec_midpoint(self) -> Point2d {
        Point2d(
            mean(self.upper_left.0 as int, self.lower_right.0 as int) as i32,
            mean(self.upper_left.1 as int, self.lower_right.1 as int) as i32,
        )
    }

    /// Whether `p` lies in the box: each coordinate between those of the two corners,
    /// the corners included.
    pub open spec fn contains(self, p: Point2d) -> bool {
        &&& self.upper_left.0 <= p.0 <= self.lower_right.0 || self.lower_right.0 <= p.0
            <= self.upper_left.0
        &&& self.upper_left.1 <= p.1 <= self.lower_right.1 || self.lower_right.1 <= p.1
            <= self.upper_left.1
    }

    /// The box with the given corners, if both are valid positions.
    ///
    /// Of an invalid corner the latitude is reported before the longitude, and the upper
    /// left corner before the lower right one.
    pub fn new(upper_left: Point2d, lower_right: Point2d) -> (r: TGResult<Self>)
        ensures
            match r {
                Ok(bbox) => {
                    &&& upper_left.is_valid()
                    &&& lower_right.is_valid()
                    &&& bbox.upper_left == upper_left
                    &&& bbox.lower_right == lower_right
                },
                Err(e) => {
                    &&& !(upper_left.is_valid() && lower_right.is_valid())
                    &&& e matches Error::InvalidCoord(text)
                    &&& text@ == (if !upper_left.is_valid() {
                        invalid_text(upper_left)
                    } else {
                        invalid_text(lower_right)
                    })
                },
            },
    {
        match Self::validate_lat_lon(upper_left) {
            Ok(()) => {},
            Err(e) => {
                return Err(e);
            },
        }
        match Self::validate_lat_lon(lower_right) {
            Ok(()) => {},
            Err(e) => {
                return Err(e);
            },
        }
        Ok(Self { upper_left, lower_right })
    }

    /// The point halfway between the two corners. This is the mean of the coordinates,
    /// not the midpoint of a geodesic.
    pub fn midpoint(&self) -> (mid: Point2d)
        ensures
            mid == self.spec_midpoint(),
            self.contains(mid),
            self.is_valid() ==> mid.is_valid(),
    {
        let lat: i64 = (self.upper_left.0 as i64 + self.lower_right.0 as i64) / 2;
        let lon: i64 = (self.upper_left.1 as i64 + self.lower_right.1 as i64) / 2;
        Point2d(lat as i32, lon as i32)
    }

    /// Approximate (width, height) in whole metres.
    ///
    /// The latitude of the midpoint serves as the one latitude of reference: `cosines`
    /// are the cosines of that latitude, and the spans of the box in longitude and in
    /// latitude are both converted with the length that a degree has there. So the
    /// result is good for boxes that are small against the curvature of the earth.
    /// Fails if the latitude of the midpoint is out of range.
    pub fn approx_dimensions_m(&self, cosines: &LatCosines) -> (r: TGResult<Point2d>)
        ensures
            match r {
                Ok(dim) => {
                    &&& valid_lat(self.spec_midpoint().0 as int)
                    &&& dim.0 == span_meters(
                        lon_degree_um(*cosines),
                        self.lower_right.1 - self.upper_left.1,
                    )
                    &&& dim.1 == span_meters(
                        lat_degree_um(*cosines),
                        self.lower_right.0 - self.upper_left.0,
                    )
                },
                Err(e) => {
                    &&& !valid_lat(self.spec_midpoint().0 as int)
                    &&& e matches Error::InvalidCoord(text)
                    &&& text@ == lat_error_text(self.spec_midpoint().0 as int)
                },
            },
    {
        // Use midpoint latitude as an approximate input for meters per degree calcs.
        let mid = self.midpoint();
        let lat_deg: i64 = self.lower_right.0 as i64 - self.upper_left.0 as i64;
        let lon_deg: i64 = self.lower_right.1 as i64 - self.upper_left.1 as i64;
        let lon_um: i64 = match Self::meter_per_deg_lon(mid.0, cosines) {
            Ok(um) => um,
            Err(e) => {
                return Err(e);
            },
        };
        let lat_um: i64 = match Self::meter_per_deg_lat(mid.0, cosines) {
            Ok(um) => um,
            Err(e) => {
                return Err(e);
            },
        };
        let width: i32 = span_in_meters(lon_um, lon_deg);
        let height: i32 = span_in_meters(lat_um, lat_deg);
        Ok(Point2d(width, height))
    }

    /// The length of one degree of latitude at the latitude `lat`, in micrometres, from
    /// the cosines of that latitude. Fails if `lat` is out of range.
    pub fn meter_per_deg_lat(lat: i32, cosines: &LatCosines) -> (r: TGResult<i64>)
        ensures
            match r {
                Ok(um) => valid_lat(lat as int) && um == lat_degree_um(*cosines),
                Err(e) => {
                    &&& !valid_lat(lat as int)
                    &&& e matches Error::InvalidCoord(text)
                    &&& text@ == lat_error_text(lat as int)
                },
            },
    {
        match Self::validate_lat(lat) {
            Ok(()) => {},
            Err(e) => {
                return Err(e);
            },
        }
        Ok(lat_degree(cosines))
    }

    /// The length of one degree of longitude at the latitude `lat`, in micrometres, from
    /// the cosines of that latitude. Fails if `lat` is out of range.
    pub fn meter_per_deg_lon(lat: i32, cosines: &LatCosines) -> (r: TGResult<i64>)
        ensures
            match r {
                Ok(um) => valid_lat(lat as int) && um == lon_degree_um(*cosines),
                Err(e) => {
                    &&& !valid_lat(lat as int)
                    &&& e matches Error::InvalidCoord(text)
                    &&& text@ == lat_error_text(lat as int)
                },
            },
    {
        match Self::validate_lat(lat) {
            Ok(()) => {},
            Err(e) => {
                return Err(e);
            },
        }
        Ok(lon_degree(cosines))
    }

    /// Succeeds if `coord` is a valid position; reports the latitude before the longitude.
    pub fn validate_lat_lon(coord: Point2d) -> (r: TGResult<()>)
        ensures
            r is Ok <==> coord.is_valid(),
            r matches Err(e) ==> e matches Error::InvalidCoord(text) && text@ == invalid_text(
                coord,
            ),
    {
        match Self::validate_lat(coord.0) {
            Ok(()) => {},
            Err(e) => {
                return Err(e);
            },
        }
        Self::validate_lon(coord.1)
    }

    /// Succeeds if `lat` lies between 90 degrees south and 90 degrees north.
    pub fn validate_lat(lat: i32) -> (r: TGResult<()>)
        ensures
            r is Ok <==> valid_lat(lat as int),
            r matches Err(e) ==> e matches Error::InvalidCoord(text) && text@
                == lat_error_text(lat as int),
    {
        if lat < -MAX_LATITUDE || lat > MAX_LATITUDE {
            let text = String::from_str("latitude ").concat(degrees_string(lat).as_str());
            return Err(Error::InvalidCoord(text));
        }
        Ok(())
    }

    /// Succeeds if `lon` lies between 180 degrees west and 180 degrees east.
    pub fn validate_lon(lon: i32) -> (r: TGResult<()>)
        ensures
            r is Ok <==> valid_lon(lon as int),
            r matches Err(e) ==> e matches Error::InvalidCoord(text) && text@
                == lon_error_text(lon as int),
    {
        if lon < -MAX_LONGITUDE || lon > MAX_LONGITUDE {
            let text = String::from_str("longitude ").concat(degrees_string(lon).as_str());
            return Err(Error::InvalidCoord(text));
        }
        Ok(())
    }
}

/// The description carried by the error for the invalid position `p`.
pub open spec fn invalid_text(p: Point2d) -> Seq<char> {
    if !valid_lat(p.0 as int) {
        lat_error_text(p.0 as int)
    } else {
        lon_error_text(p.1 as int)
    }
}

/// Every position is valid or not, and is valid just when its latitude is at most 90
/// degrees and its longitude at most 180 degrees from zero.
pub proof fn lemma_valid_iff_in_range(p: Point2d)
    ensures
        p.is_valid() <==> (-90 * UNITS_PER_DEGREE <= p.0 <= 90 * UNITS_PER_DEGREE && -180
            * UNITS_PER_DEGREE <= p.1 <= 180 * UNITS_PER_DEGREE),
{
}

/// Every point of a box with valid corners is a valid position.
pub proof fn lemma_points_of_valid_box(bbox: BBoxWGS, p: Point2d)
    requires
        bbox.is_valid(),
        bbox.contains(p),
    ensures
        p.is_valid(),
{
}

/// The largest length of a degree that the series give, whatever the cosines are.
pub const MAX_DEGREE_UM: i64 = 240_000_000_000;

/// The length of a degree of latitude is never far from 111 km, and that of a degree of
/// longitude never beyond 240 km, whatever stands for the cosines.
pub proof fn lemma_degree_bounds(c: LatCosines)
    ensures
        109_000_000_000 <= lat_degree_um(c) <= 113_000_000_000,
        -MAX_DEGREE_UM <= lon_degree_um(c) <= MAX_DEGREE_UM,
{
}

/// The largest size of what [`div_toward_zero`] divides, and of what it divides by.
pub(crate) const DIVISIBLE: i128 = 0x4000_0000_0000_0000_0000_0000_0000_0000;

/// Computes [`toward_zero`] for a divisor that is not 0.
pub(crate) fn div_toward_zero(a: i128, b: i128) -> (q: i128)
    requires
        b != 0,
        -DIVISIBLE <= a <= DIVISIBLE,
        -DIVISIBLE <= b <= DIVISIBLE,
    ensures
        q == toward_zero(a as int, b as int),
{
    if b > 0 {
        a / b
    } else {
        (-a) / (-b)
    }
}

/// Computes [`lat_degree_um`].
pub(crate) fn lat_degree(c: &LatCosines) -> (um: i64)
    ensures
        um == lat_degree_um(*c),
{
    let sum: i128 = 111_132_920_000 * (TRIG_ONE as i128) - 559_820_000 * (c.cos2 as i128)
        + 1_175_000 * (c.cos4 as i128) - 2_300 * (c.cos6 as i128);
    (sum / (TRIG_ONE as i128)) as i64
}

/// Computes [`lon_degree_um`].
pub(crate) fn lon_degree(c: &LatCosines) -> (um: i64)
    ensures
        um == lon_degree_um(*c),
{
    let sum: i128 = 111_412_840_000 * (c.cos1 as i128) - 93_500_000 * (c.cos3 as i128) + 118_000
        * (c.cos5 as i128);
    (sum / (TRIG_ONE as i128)) as i64
}

/// Computes [`span_meters`] for the length of a degree that the series give and a span
/// that is the difference of two coordinates.
fn span_in_meters(um_per_degree: i64, span: i64) -> (m: i32)
    requires
        -MAX_DEGREE_UM <= um_per_degree <= MAX_DEGREE_UM,
        -0xffff_ffff <= span <= 0xffff_ffff,
    ensures
        m == span_meters(um_per_degree as int, span as int),
{
    let scale: i128 = if um_per_degree < 0 {
        -(um_per_degree as i128)
    } else {
        um_per_degree as i128
    };
    let units: i128 = if span < 0 {
        -(span as i128)
    } else {
        span as i128
    };
    assert(0 <= scale * units <= 240_000_000_000 * 0xffff_ffff) by (nonlinear_arith)
        requires
            0 <= scale <= 240_000_000_000,
            0 <= units <= 0xffff_ffff,
    ;
    assert(scale * units == um_per_degree * span || scale * units == -(um_per_degree * span))
        by (nonlinear_arith)
        requires
            scale == um_per_degree || scale == -um_per_degree,
            units == span || units == -span,
    ;
    let um_units: i128 = scale * units;
    (um_units / 10_000_000_000_000) as i32
}

/// Direction of travel, clockwise from north.
///
/// [`Heading::rot`] leaves a heading of at least 0 and less than 360 degrees; one made
/// from a number holds that number as it is.
#[derive(Debug, Copy, Clone, PartialEq, Eq, Structural)]
pub struct Heading(pub i64);

impl Heading {
    /// Whether the heading is at least 0 and less than 360 degrees.
    pub open spec fn is_normalized(self) -> bool {
        0 <= self.0 < FULL_TURN
    }

    /// This heading turned clockwise by `deg_cw`, as a direction of at least 0 and less
    /// than 360 degrees.
    pub open spec fn turned(self, deg_cw: int) -> Heading {
        Heading(((self.0 + deg_cw) % (FULL_TURN as int)) as i64)
    }

    /// Turns the heading clockwise by `deg_cw`, counter-clockwise where that is negative.
    pub fn rot(&mut self, deg_cw: i64)
        ensures
            *final(self) == old(self).turned(deg_cw as int),
            final(self).is_normalized(),
    {
        let sum: i128 = self.0 as i128 + deg_cw as i128;
        let rem: i128 = sum % (FULL_TURN as i128);
        if rem < 0 {
            self.0 = (rem + FULL_TURN as i128) as i64;
        } else {
            self.0 = rem as i64;
        }
    }
}

impl From<i64> for Heading {
    /// The heading of `deg` units, which need not be less than a full turn.
    fn from(deg: i64) -> (h: Self)
        ensures
            h.0 == deg,
    {
        Self(deg)
    }
}

impl vstd::std_specs::convert::FromSpecImpl<i64> for Heading {
    open spec fn obeys_from_spec() -> bool {
        true
    }

    open spec fn from_spec(deg: i64) -> Self {
        Heading(deg)
    }
}

impl From<Heading> for i64 {
    /// The units of the heading.
    fn from(h: Heading) -> (deg: i64)
        ensures
            deg == h.0,
    {
        h.0
    }
}

impl vstd::std_specs::convert::FromSpecImpl<Heading> for i64 {
    open spec fn obeys_from_spec() -> bool {
        true
    }

    open spec fn from_spec(h: Heading) -> i64 {
        h.0
    }
}

} // verus!
