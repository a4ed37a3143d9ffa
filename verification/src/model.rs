//! Simulated models of vehicle movement used to generate a stream of telemetry / global
//! position messages.
//!
//! A step of a model has two halves. [`RandomWalk::depart`] picks a speed and a turn and
//! says how far the vehicle goes and in which direction. For that direction and for the
//! latitude that the vehicle is at, sines and cosines are looked up; with these,
//! [`RandomWalk::arrive`] works out where the movement leads and puts the vehicle there,
//! inside its box. The library computes no sine: a walk is made with the function that
//! looks them up, and `next` calls it between the two halves.
use vstd::prelude::*;
use std::time::Duration;
use crate::coord::{
    div_toward_zero, lat_degree, lat_degree_um, lon_degree, lon_degree_um, toward_zero, BBoxWGS,
    Heading, LatCosines, Point2d, FULL_TURN, TRIG_ONE,
};
use crate::protocol::TelemMsg;

verus! {

/// Half a turn: the change of heading on hitting the edge of the box.
pub const HALF_TURN: i64 = 1_800_000_000;

/// The largest turn made in one step, 5 degrees to either side.
pub const MAX_TURN: i64 = 50_000_000;

/// A movement in units of 1e-7 degree that ends beyond every box.
pub const FAR: i64 = 0x1_0000_0000;

/// API for stream of telemetry messages.
pub trait TelemStream<M> where M: TelemMsg {
    fn next(&mut self, delta_t: TimeDelta) -> M;
}

/// Time delta since last telemetry message, with [`Default`] and conversion from [`Duration`] for
/// convenience.
#[derive(Debug, Copy, Clone)]
pub struct TimeDelta {
    msec: u32,
}

impl View for TimeDelta {
    type V = u32;

    /// The time in milliseconds.
    closed spec fn view(&self) -> u32 {
        self.msec
    }
}

/// The whole milliseconds in a duration: the name of what `Duration::as_millis` of std
/// returns for it. Nothing is stated of its value.
pub uninterp spec fn duration_millis(d: Duration) -> u128;

/// `Duration::as_millis` of std is taken at its word: it returns the whole milliseconds
/// in the duration, the same number for the same duration. This is believed, not proved.
pub assume_specification[ Duration::as_millis ](d: &Duration) -> (ms: u128)
    ensures
        ms == duration_millis(*d),
;

impl Default for TimeDelta {
    /// One second.
    fn default() -> (r: Self)
        ensures
            r@ == 1000,
    {
        Self { msec: 1000 }
    }
}

impl From<Duration> for TimeDelta {
    /// The whole milliseconds of `d`, of which the low 32 bits are kept.
    fn from(d: Duration) -> (r: Self)
        ensures
            r@ == duration_millis(d) % 0x1_0000_0000,
    {
        Self::from_millis(d.as_millis())
    }
}

impl vstd::std_specs::convert::FromSpecImpl<Duration> for TimeDelta {
    open spec fn obeys_from_spec() -> bool {
        true
    }

    closed spec fn from_spec(d: Duration) -> Self {
        TimeDelta { msec: (duration_millis(d) % 0x1_0000_0000) as u32 }
    }
}

impl TimeDelta {
    /// A time of `ms` milliseconds, of which the low 32 bits are kept.
    pub fn from_millis(ms: u128) -> (r: Self)
        ensures
            r@ == ms % 0x1_0000_0000,
    {
        Self { msec: (ms % 0x1_0000_0000) as u32 }
    }

    /// The time in milliseconds.
    pub fn millis(&self) -> (ms: u32)
        ensures
            ms == self@,
    {
        self.msec
    }
}

/// The share of `span` that a random number selects: the upper 24 bits of `draw`, read
/// as a fraction of 2^24, times `span`, rounded down.
pub open spec fn share(draw: u32, span: nat) -> nat {
    ((draw / 256) * span / 0x100_0000) as nat
}

/// The turn that a random number selects: between 5 degrees to the left and 5 degrees
/// to the right.
pub open spec fn turn_for(draw: u32) -> int {
    share(draw, (2 * MAX_TURN) as nat) - MAX_TURN
}

/// The latitude that the step to `lat` ends at in `bbox`: the edge that `lat` lies
/// beyond, else `lat` itself. The upper edge is looked at first.
pub open spec fn clamp_lat(bbox: BBoxWGS, lat: int) -> int {
    if lat > bbox.upper_left.0 {
        bbox.upper_left.0 as int
    } else if lat < bbox.lower_right.0 {
        bbox.lower_right.0 as int
    } else {
        lat
    }
}

/// The longitude that the step to `lon` ends at in `bbox`: the edge that `lon` lies
/// beyond, else `lon` itself. The left edge is looked at first.
pub open spec fn clamp_lon(bbox: BBoxWGS, lon: int) -> int {
    if lon < bbox.upper_left.1 {
        bbox.upper_left.1 as int
    } else if lon > bbox.lower_right.1 {
        bbox.lower_right.1 as int
    } else {
        lon
    }
}

/// Whether the position (`lat`, `lon`) lies beyond an edge of `bbox`.
pub open spec fn out_of_bounds(bbox: BBoxWGS, lat: int, lon: int) -> bool {
    clamp_lat(bbox, lat) != lat || clamp_lon(bbox, lon) != lon
}

/// The part in millimetres of a movement of `distance_mm` that falls to a direction of
/// which `ratio` is the sine or the cosine, in parts per billion.
pub open spec fn part_mm(distance_mm: int, ratio: int) -> int {
    toward_zero(distance_mm * ratio, TRIG_ONE as int)
}

/// The movement in units of 1e-7 degree that `mm` millimetres make where one degree is
/// `um_per_degree` micrometres long. Where a degree has no length, any movement is
/// [`FAR`].
pub open spec fn degrees_along(mm: int, um_per_degree: int) -> int {
    if um_per_degree != 0 {
        toward_zero(mm * 10_000_000_000, um_per_degree)
    } else if mm > 0 {
        FAR as int
    } else if mm < 0 {
        -FAR
    } else {
        0
    }
}

/// What a [`RandomWalk`] holds.
pub struct WalkState {
    /// The box that the vehicle stays in.
    pub bbox: BBoxWGS,
    /// The largest speed, in millimetres per second.
    pub max_velocity: u32,
    /// Where the vehicle is.
    pub position: Point2d,
    /// Where the vehicle is heading.
    pub heading: Heading,
}

/// The straight movement of one step.
#[derive(Debug, Copy, Clone)]
pub struct Leg {
    /// Where the movement starts.
    pub origin: Point2d,
    /// The direction of the movement.
    pub heading: Heading,
    /// The length of the movement in millimetres.
    pub distance_mm: u64,
}

/// The sines and cosines that a [`Leg`] asks for, in parts per billion.
#[derive(Debug, Copy, Clone)]
pub struct LegTrig {
    /// The cosine of the heading of the leg.
    pub cos_heading: i32,
    /// The sine of the heading of the leg.
    pub sin_heading: i32,
    /// The cosines of the latitude at which the leg starts.
    pub latitude: LatCosines,
}

impl Leg {
    /// The movement to the north in units of 1e-7 degree: the distance times the sine of
    /// the heading, by the length of a degree of latitude.
    pub open spec fn delta_lat(self, trig: LegTrig) -> int {
        degrees_along(
            part_mm(self.distance_mm as int, trig.sin_heading as int),
            lat_degree_um(trig.latitude),
        )
    }

    /// The movement to the east in units of 1e-7 degree: the distance times the cosine
    /// of the heading, by the length of a degree of longitude.
    pub open spec fn delta_lon(self, trig: LegTrig) -> int {
        degrees_along(
            part_mm(self.distance_mm as int, trig.cos_heading as int),
            lon_degree_um(trig.latitude),
        )
    }
}

impl WalkState {
    /// The state of a walk that begins in `bbox` with the heading that `heading_draw`
    /// selects: at the midpoint of the box.
    pub open spec fn start(bbox: BBoxWGS, max_velocity: u32, heading_draw: u32) -> WalkState {
        WalkState {
            bbox,
            max_velocity,
            position: bbox.spec_midpoint(),
            heading: Heading(share(heading_draw, FULL_TURN as nat) as i64),
        }
    }

    /// Whether the vehicle is in its box, with a heading of at least 0 and less than 360
    /// degrees.
    pub open spec fn in_bounds(self) -> bool {
        self.bbox.contains(self.position) && self.heading.is_normalized()
    }

    /// The state after the vehicle turned as `turn_draw` selects.
    pub open spec fn departed(self, turn_draw: u32) -> WalkState {
        WalkState { heading: self.heading.turned(turn_for(turn_draw)), ..self }
    }

    /// The movement of the step that begins in this state and takes `msec` milliseconds,
    /// at the speed that `speed_draw` selects and after the turn that `turn_draw`
    /// selects.
    pub open spec fn leg(self, msec: u32, speed_draw: u32, turn_draw: u32) -> Leg {
        Leg {
            origin: self.position,
            heading: self.heading.turned(turn_for(turn_draw)),
            distance_mm: (share(speed_draw, self.max_velocity as nat) * msec / 1000) as u64,
        }
    }

    /// The state after a movement by `delta_lat` and `delta_lon`: the vehicle stops at
    /// each edge that the movement would cross, and turns round if it met any.
    pub open spec fn arrived(self, delta_lat: int, delta_lon: int) -> WalkState {
        let lat = self.position.0 + delta_lat;
        let lon = self.position.1 + delta_lon;
        WalkState {
            position: Point2d(
                clamp_lat(self.bbox, lat) as i32,
                clamp_lon(self.bbox, lon) as i32,
            ),
            heading: if out_of_bounds(self.bbox, lat, lon) {
                self.heading.turned(HALF_TURN as int)
            } else {
                self.heading
            },
            ..self
        }
    }
}

/// A share of a span is a part of it, and less than the whole where there is a whole.
pub proof fn lemma_share_bounds(draw: u32, span: nat)
    ensures
        share(draw, span) <= span,
        span > 0 ==> share(draw, span) < span,
{
    let k = (draw / 256) as int;
    let s = span as int;
    assert(0 <= k < 0x100_0000);
    assert(0 <= k * s && k * s <= 0xff_ffff * s) by (nonlinear_arith)
        requires
            0 <= k <= 0xff_ffff,
            0 <= s,
    ;
}

/// Computes [`share`].
fn share_of(draw: u32, span: u32) -> (r: u32)
    ensures
        r == share(draw, span as nat),
        r <= span,
{
    let k: u64 = (draw / 256) as u64;
    proof {
        lemma_share_bounds(draw, span as nat);
        assert(k * span <= 0xff_ffff * 0xffff_ffff) by (nonlinear_arith)
            requires
                0 <= k <= 0xff_ffff,
                0 <= span <= 0xffff_ffff,
        ;
    }
    (k * (span as u64) / 0x100_0000) as u32
}

/// Computes [`part_mm`].
fn part_of(distance_mm: u64, ratio: i32) -> (mm: i128)
    ensures
        mm == part_mm(distance_mm as int, ratio as int),
        -0x4_0000_0000_0000_0000 <= mm <= 0x4_0000_0000_0000_0000,
{
    assert(-0x1_0000_0000_0000_0000 * 0x8000_0000 <= distance_mm * ratio
        <= 0x1_0000_0000_0000_0000 * 0x8000_0000) by (nonlinear_arith)
        requires
            0 <= distance_mm <= 0x1_0000_0000_0000_0000,
            -0x8000_0000 <= ratio <= 0x8000_0000,
    ;
    div_toward_zero(distance_mm as i128 * ratio as i128, TRIG_ONE as i128)
}

/// Computes [`degrees_along`].
fn in_degrees(mm: i128, um_per_degree: i64) -> (units: i128)
    requires
        -0x4_0000_0000_0000_0000 <= mm <= 0x4_0000_0000_0000_0000,
    ensures
        units == degrees_along(mm as int, um_per_degree as int),
        -0x4000_0000_0000_0000_0000_0000_0000 <= units <= 0x4000_0000_0000_0000_0000_0000_0000,
{
    if um_per_degree != 0 {
        let units: i128 = div_toward_zero(mm * 10_000_000_000, um_per_degree as i128);
        proof {
            lemma_toward_zero_bound(mm * 10_000_000_000, um_per_degree as int);
        }
        units
    } else if mm > 0 {
        FAR as i128
    } else if mm < 0 {
        -(FAR as i128)
    } else {
        0
    }
}

/// A quotient is no further from zero than what was divided.
proof fn lemma_toward_zero_bound(a: int, b: int)
    requires
        b != 0,
    ensures
        a >= 0 ==> -a <= toward_zero(a, b) <= a,
        a <= 0 ==> a <= toward_zero(a, b) <= -a,
{
    let size_a = if a >= 0 { a } else { -a };
    let size_b = if b >= 0 { b } else { -b };
    assert(0 <= size_a / size_b <= size_a) by (nonlinear_arith)
        requires
            size_a >= 0,
            size_b >= 1,
    ;
}

/// A random number: calls `rand::random::<u32>()`, which takes 32 bits from the
/// generator of the running thread. Nothing is claimed of the number, so what is proved
/// of a walk holds whatever is drawn. The floating-point numbers of `rand` between 0 and
/// 1 are the upper 24 bits of such a number over 2^24, which is how [`share`] reads it.
/// The generator is seeded from the operating system when a thread first draws, and
/// `rand` panics if that fails.
#[verifier::external_body]
fn draw() -> u32 {
    rand::random::<u32>()
}

/// Super simple vehicle motion model. Not realistic.
///
/// The vehicle starts in the middle of its box and never leaves the box. `F` is the
/// function that gives the sines and cosines for a leg.
pub struct RandomWalk<F: Fn(Leg) -> LegTrig> {
    bbox: BBoxWGS,
    max_velocity_mmps: u32,
    last_pos: Point2d,
    heading: Heading,
    trig_of: F,
}

impl<F: Fn(Leg) -> LegTrig> View for RandomWalk<F> {
    type V = WalkState;

    closed spec fn view(&self) -> WalkState {
        WalkState {
            bbox: self.bbox,
            max_velocity: self.max_velocity_mmps,
            position: self.last_pos,
            heading: self.heading,
        }
    }
}

impl<F: Fn(Leg) -> LegTrig> RandomWalk<F> {
    #[verifier::type_invariant]
    spec fn inv(&self) -> bool {
        &&& self.bbox.contains(self.last_pos)
        &&& self.heading.is_normalized()
        &&& forall|leg: Leg| call_requires(self.trig_of, (leg,))
    }

    /// The function that gives the sines and cosines for a leg.
    pub closed spec fn trig_of(&self) -> F {
        self.trig_of
    }

    /// A walk in `bbox` at no more than `max_velocity_mmps` millimetres per second. It
    /// begins at the midpoint of the box, with a heading drawn at random. `trig_of` is
    /// asked for the sines and cosines of every leg, so it has to take every leg.
    pub fn new(bbox: BBoxWGS, max_velocity_mmps: u32, trig_of: F) -> (walk: Self)
        requires
            forall|leg: Leg| call_requires(trig_of, (leg,)),
        ensures
            exists|heading_draw: u32|
                walk@ == #[trigger] WalkState::start(bbox, max_velocity_mmps, heading_draw),
            walk@.in_bounds(),
            walk.trig_of() == trig_of,
    {
        let heading_draw: u32 = draw();
        Self::from_draw(bbox, max_velocity_mmps, trig_of, heading_draw)
    }

    /// The walk that [`RandomWalk::new`] makes when its random number is `heading_draw`.
    pub fn from_draw(
        bbox: BBoxWGS,
        max_velocity_mmps: u32,
        trig_of: F,
        heading_draw: u32,
    ) -> (walk: Self)
        requires
            forall|leg: Leg| call_requires(trig_of, (leg,)),
        ensures
            walk@ == WalkState::start(bbox, max_velocity_mmps, heading_draw),
            walk@.in_bounds(),
            walk.trig_of() == trig_of,
    {
        let start_pos = bbox.midpoint();
        proof {
            lemma_share_bounds(heading_draw, FULL_TURN as nat);
        }
        let deg: u32 = share_of(heading_draw, 3_600_000_000u32);
        Self {
            bbox,
            max_velocity_mmps,
            last_pos: start_pos,
            heading: Heading(deg as i64),
            trig_of,
        }
    }

    /// What `next` does when its random numbers are `speed_draw` and `turn_draw`.
    pub fn next_with<M: TelemMsg>(
        &mut self,
        delta_t: TimeDelta,
        speed_draw: u32,
        turn_draw: u32,
    ) -> (msg: M)
        ensures
            exists|trig: LegTrig|
                call_ensures(
                    old(self).trig_of(),
                    (old(self)@.leg(delta_t@, speed_draw, turn_draw),),
                    trig,
                ) && final(self)@ == #[trigger] old(self)@.stepped(
                    (Step { msec: delta_t@, speed_draw, turn_draw, trig }),
                ),
            final(self)@.in_bounds(),
            final(self)@.bbox == old(self)@.bbox,
            final(self).trig_of() == old(self).trig_of(),
            call_ensures(
                M::from_coords,
                (final(self)@.position.0, final(self)@.position.1, 0i32),
                msg,
            ),
    {
        proof {
            use_type_invariant(&*self);
        }
        let leg = self.depart_with(delta_t, speed_draw, turn_draw);
        let trig = (self.trig_of)(leg);
        let msg = self.arrive(&leg, &trig);
        proof {
            assert(self@ == old(self)@.stepped(
                (Step { msec: delta_t@, speed_draw, turn_draw, trig }),
            ));
        }
        msg
    }

    /// Begins a step of `delta_t`: draws a speed of at most the largest speed and a turn
    /// of at most 5 degrees to either side, turns, and says which movement follows.
    /// The vehicle does not move yet: hand the leg, with its sines and cosines, to
    /// [`RandomWalk::arrive`].
    pub fn depart(&mut self, delta_t: TimeDelta) -> (leg: Leg)
        ensures
            exists|speed_draw: u32, turn_draw: u32|
                final(self)@ == old(self)@.departed(turn_draw) && leg == #[trigger] old(
                    self,
                )@.leg(delta_t@, speed_draw, turn_draw),
            final(self)@.in_bounds(),
            final(self).trig_of() == old(self).trig_of(),
            final(self)@.position == old(self)@.position,
            final(self)@.bbox == old(self)@.bbox,
            final(self)@.max_velocity == old(self)@.max_velocity,
            leg.origin == old(self)@.position,
            leg.heading == final(self)@.heading,
            leg.distance_mm * 1000 <= old(self)@.max_velocity * delta_t@,
    {
        let speed_draw: u32 = draw();
        let turn_draw: u32 = draw();
        self.depart_with(delta_t, speed_draw, turn_draw)
    }

    /// What [`RandomWalk::depart`] does when its random numbers are `speed_draw` and
    /// `turn_draw`.
    pub fn depart_with(
        &mut self,
        delta_t: TimeDelta,
        speed_draw: u32,
        turn_draw: u32,
    ) -> (leg: Leg)
        ensures
            final(self)@ == old(self)@.departed(turn_draw),
            leg == old(self)@.leg(delta_t@, speed_draw, turn_draw),
            final(self)@.in_bounds(),
            final(self).trig_of() == old(self).trig_of(),
            leg.distance_mm * 1000 <= old(self)@.max_velocity * delta_t@,
    {
        proof {
            use_type_invariant(&*self);
        }
        let vel: u32 = share_of(speed_draw, self.max_velocity_mmps);
        let turn: i64 = share_of(turn_draw, 100_000_000u32) as i64 - MAX_TURN;
        let mut heading = self.heading;
        heading.rot(turn);
        self.heading = heading;
        let msec: u32 = delta_t.millis();
        proof {
            assert(vel * msec <= self.max_velocity_mmps * msec) by (nonlinear_arith)
                requires
                    0 <= vel <= self.max_velocity_mmps,
                    0 <= msec,
            ;
            assert(vel * msec <= 0xffff_ffff * 0xffff_ffff) by (nonlinear_arith)
                requires
                    0 <= vel <= 0xffff_ffff,
                    0 <= msec <= 0xffff_ffff,
            ;
        }
        let dist_mm: u64 = vel as u64 * msec as u64 / 1000;
        Leg { origin: self.last_pos, heading, distance_mm: dist_mm }
    }

    /// Ends a step: moves the vehicle along `leg` and reports where it is.
    ///
    /// `trig` holds the sine and the cosine of the heading of the leg, and the cosines
    /// of the latitude that the vehicle is at; of the leg itself only the distance is
    /// read. The distance is split into a part to the
    /// east, by the cosine, and a part to the north, by the sine; each part is turned
    /// into degrees by the length that a degree has at that latitude, and added to the
    /// position. Where this would take the vehicle beyond an edge of the box, the
    /// vehicle stops at that edge, for latitude and longitude each by itself; if it met
    /// an edge, it turns round by 180 degrees, once. The message is made by
    /// `M::from_coords` from the new position and a height of 0.
    pub fn arrive<M: TelemMsg>(&mut self, leg: &Leg, trig: &LegTrig) -> (msg: M)
        ensures
            final(self)@ == old(self)@.arrived(leg.delta_lat(*trig), leg.delta_lon(*trig)),
            final(self)@.in_bounds(),
            final(self).trig_of() == old(self).trig_of(),
            call_ensures(
                M::from_coords,
                (final(self)@.position.0, final(self)@.position.1, 0i32),
                msg,
            ),
    {
        proof {
            use_type_invariant(&*self);
        }
        let delta_y: i128 = part_of(leg.distance_mm, trig.sin_heading);
        let delta_x: i128 = part_of(leg.distance_mm, trig.cos_heading);
        let delta_lat: i128 = in_degrees(delta_y, lat_degree(&trig.latitude));
        let delta_lon: i128 = in_degrees(delta_x, lon_degree(&trig.latitude));
        let new_lat: i128 = self.last_pos.0 as i128 + delta_lat;
        let new_lon: i128 = self.last_pos.1 as i128 + delta_lon;
        // clamp to bbox
        let mut oob = false;
        let lat: i32 = if new_lat > self.bbox.upper_left.0 as i128 {
            oob = true;
            self.bbox.upper_left.0
        } else if new_lat < self.bbox.lower_right.0 as i128 {
            oob = true;
            self.bbox.lower_right.0
        } else {
            new_lat as i32
        };
        let lon: i32 = if new_lon < self.bbox.upper_left.1 as i128 {
            oob = true;
            self.bbox.upper_left.1
        } else if new_lon > self.bbox.lower_right.1 as i128 {
            oob = true;
            self.bbox.lower_right.1
        } else {
            new_lon as i32
        };
        if oob {
            let mut heading = self.heading;
            heading.rot(HALF_TURN);
            self.heading = heading;
        }
        self.last_pos = Point2d(lat, lon);
        M::from_coords(lat, lon, 0)
    }

    /// Where the vehicle is: a point of its box.
    pub fn position(&self) -> (p: Point2d)
        ensures
            p == self@.position,
            self@.bbox.contains(p),
    {
        proof {
            use_type_invariant(self);
        }
        self.last_pos
    }

    /// Where the vehicle is heading: at least 0 and less than 360 degrees.
    pub fn heading(&self) -> (h: Heading)
        ensures
            h == self@.heading,
            h.is_normalized(),
    {
        proof {
            use_type_invariant(self);
        }
        self.heading
    }

    /// The box that the vehicle stays in.
    pub fn bbox(&self) -> (b: BBoxWGS)
        ensures
            b == self@.bbox,
    {
        self.bbox
    }

    /// The largest speed of the vehicle, in millimetres per second.
    pub fn max_velocity(&self) -> (v: u32)
        ensures
            v == self@.max_velocity,
    {
        self.max_velocity_mmps
    }
}

impl<M: TelemMsg, F: Fn(Leg) -> LegTrig> TelemStream<M> for RandomWalk<F> {
    /// One step of `delta_t`: draws a speed and a turn, turns, moves as far as the speed
    /// takes the vehicle in that time, stops at the edge of the box and turns round
    /// there, and reports the new position at a height of 0.
    fn next(&mut self, delta_t: TimeDelta) -> (msg: M)
        ensures
            exists|speed_draw: u32, turn_draw: u32, trig: LegTrig|
                call_ensures(
                    old(self).trig_of(),
                    (old(self)@.leg(delta_t@, speed_draw, turn_draw),),
                    trig,
                ) && final(self)@ == #[trigger] old(self)@.stepped(
                    (Step { msec: delta_t@, speed_draw, turn_draw, trig }),
                ),
            final(self)@.in_bounds(),
            final(self)@.bbox == old(self)@.bbox,
            final(self).trig_of() == old(self).trig_of(),
            call_ensures(
                M::from_coords,
                (final(self)@.position.0, final(self)@.position.1, 0i32),
                msg,
            ),
    {
        let speed_draw: u32 = draw();
        let turn_draw: u32 = draw();
        self.next_with(delta_t, speed_draw, turn_draw)
    }
}

/// What one step of a walk depends on: the time it takes, the two numbers that were
/// drawn, and the sines and cosines that were found for its leg.
pub struct Step {
    pub msec: u32,
    pub speed_draw: u32,
    pub turn_draw: u32,
    pub trig: LegTrig,
}

impl WalkState {
    /// The state after one step: a [`RandomWalk::depart`] and the
    /// [`RandomWalk::arrive`] that follows it with the same leg.
    pub open spec fn stepped(self, step: Step) -> WalkState {
        let leg = self.leg(step.msec, step.speed_draw, step.turn_draw);
        self.departed(step.turn_draw).arrived(leg.delta_lat(step.trig), leg.delta_lon(step.trig))
    }

    /// The state after the steps of `steps`, one after the other.
    pub open spec fn after(self, steps: Seq<Step>) -> WalkState
        decreases steps.len(),
    {
        if steps.len() == 0 {
            self
        } else {
            self.after(steps.drop_last()).stepped(steps.last())
        }
    }
}

/// A walk begins in its box.
pub proof fn lemma_start_in_bounds(bbox: BBoxWGS, max_velocity: u32, heading_draw: u32)
    ensures
        WalkState::start(bbox, max_velocity, heading_draw).in_bounds(),
{
    lemma_share_bounds(heading_draw, FULL_TURN as nat);
}

/// Wherever a movement would lead, the vehicle ends it in its box: where it would have
/// crossed an edge, on that edge.
pub proof fn lemma_arrived_in_box(state: WalkState, delta_lat: int, delta_lon: int)
    ensures
        state.arrived(delta_lat, delta_lon).bbox == state.bbox,
        state.arrived(delta_lat, delta_lon).max_velocity == state.max_velocity,
        state.bbox.contains(state.arrived(delta_lat, delta_lon).position),
        state.heading.is_normalized() ==> state.arrived(delta_lat, delta_lon).in_bounds(),
{
}

/// Steps keep a vehicle in its box that is in it.
pub proof fn lemma_steps_keep_bounds(from: WalkState, steps: Seq<Step>)
    requires
        from.in_bounds(),
    ensures
        from.after(steps).in_bounds(),
        from.after(steps).bbox == from.bbox,
        from.after(steps).max_velocity == from.max_velocity,
    decreases steps.len(),
{
    if steps.len() > 0 {
        lemma_steps_keep_bounds(from, steps.drop_last());
        let before = from.after(steps.drop_last());
        let step = steps.last();
        let leg = before.leg(step.msec, step.speed_draw, step.turn_draw);
        lemma_arrived_in_box(
            before.departed(step.turn_draw),
            leg.delta_lat(step.trig),
            leg.delta_lon(step.trig),
        );
    }
}

/// The vehicle never leaves its box: from the start of a walk and after any number of
/// steps, whatever was drawn and whatever was found for the sines and cosines, its
/// latitude and its longitude lie between those of the corners of the box, the corners
/// included, and its heading is at least 0 and less than 360 degrees.
pub proof fn lemma_walk_stays_in_box(
    bbox: BBoxWGS,
    max_velocity: u32,
    heading_draw: u32,
    steps: Seq<Step>,
)
    ensures
        WalkState::start(bbox, max_velocity, heading_draw).after(steps).in_bounds(),
        WalkState::start(bbox, max_velocity, heading_draw).after(steps).bbox == bbox,
{
    lemma_start_in_bounds(bbox, max_velocity, heading_draw);
    lemma_steps_keep_bounds(WalkState::start(bbox, max_velocity, heading_draw), steps);
}

} // verus!
