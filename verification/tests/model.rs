use std::time::Duration;
use telem_gen::coord::{BBoxWGS, Heading, LatCosines, Point2d, FULL_TURN, TRIG_ONE};
use telem_gen::model::{
    Leg, LegTrig, RandomWalk, TelemStream, TimeDelta, FAR, HALF_TURN, MAX_TURN,
};
use telem_gen::protocol::TelemMsg;

/// A message that keeps what it was made from.
#[derive(Debug, PartialEq)]
struct Fix {
    lat: i32,
    lon: i32,
    alt_hae: i32,
    agent_id: Option<String>,
}

impl TelemMsg for Fix {
    fn from_coords(lat: i32, lon: i32, alt_hae: i32) -> Self {
        Fix { lat, lon, alt_hae, agent_id: None }
    }

    fn with_agent_id(self, agent_id: &str) -> Self {
        Fix { agent_id: Some(agent_id.to_string()), ..self }
    }

    fn to_bytes(&self) -> Vec<u8> {
        format!("{} {} {}", self.lat, self.lon, self.alt_hae).into_bytes()
    }
}

/// A sine or a cosine in parts per billion.
fn ppb(ratio: f64) -> i32 {
    (ratio * f64::from(TRIG_ONE)).round() as i32
}

/// The sines and cosines that `leg` asks for.
fn trig_for(leg: Leg) -> LegTrig {
    let heading_rad = (leg.heading.0 as f64 / 1e7).to_radians();
    let lat_rad = (f64::from(leg.origin.0) / 1e7).to_radians();
    LegTrig {
        cos_heading: ppb(heading_rad.cos()),
        sin_heading: ppb(heading_rad.sin()),
        latitude: LatCosines {
            cos1: ppb(lat_rad.cos()),
            cos2: ppb((2.0 * lat_rad).cos()),
            cos3: ppb((3.0 * lat_rad).cos()),
            cos4: ppb((4.0 * lat_rad).cos()),
            cos5: ppb((5.0 * lat_rad).cos()),
            cos6: ppb((6.0 * lat_rad).cos()),
        },
    }
}

/// A leg of `distance_mm` from the middle of the demo box. Where it starts and where it
/// heads does not matter on arrival.
fn leg_of(distance_mm: u64) -> Leg {
    Leg { origin: Point2d(385_000_000, -1_097_500_000), heading: Heading(0), distance_mm }
}

/// Sines and cosines for which a degree of latitude is 111132.92 m long and a degree of
/// longitude 111412.84 m.
fn plain_trig(cos_heading: i32, sin_heading: i32) -> LegTrig {
    LegTrig {
        cos_heading,
        sin_heading,
        latitude: LatCosines { cos1: TRIG_ONE, cos2: 0, cos3: 0, cos4: 0, cos5: 0, cos6: 0 },
    }
}

fn demo_box() -> BBoxWGS {
    BBoxWGS {
        upper_left: Point2d(390_000_000, -1_100_000_000),
        lower_right: Point2d(380_000_000, -1_095_000_000),
    }
}

#[test]
fn test_random_walk() {
    let bbox = BBoxWGS {
        upper_left: Point2d(390_000_000, -1_100_000_000),
        lower_right: Point2d(380_000_000, -1_095_000_000),
    };
    let mut rw = RandomWalk::new(bbox, 100_000, trig_for);
    for _ in 0..100 {
        let msg: Fix = rw.next(Duration::new(60, 0).into());
        let Point2d(lat, lon) = rw.position();
        assert_eq!(msg, Fix::from_coords(lat, lon, 0));
        let (lat, lon) = (f64::from(lat) / 1e7, f64::from(lon) / 1e7);
        assert!((38.0..=39.0).contains(&lat));
        assert!((-110.0..=-109.5).contains(&lon));
    }
}

#[test]
fn time_delta_defaults_to_one_second() {
    assert_eq!(TimeDelta::default().millis(), 1000);
}

#[test]
fn time_delta_from_a_duration() {
    assert_eq!(TimeDelta::from(Duration::new(60, 0)).millis(), 60_000);
    assert_eq!(TimeDelta::from(Duration::new(0, 1_999_999)).millis(), 1);
    assert_eq!(TimeDelta::from(Duration::new(0, 0)).millis(), 0);
    // 2^32 ms and 7 ms more: the low 32 bits stay
    assert_eq!(TimeDelta::from(Duration::from_millis(4_294_967_303)).millis(), 7);
    let delta: TimeDelta = Duration::from_millis(250).into();
    assert_eq!(delta.millis(), 250);
}

#[test]
fn time_delta_from_milliseconds() {
    assert_eq!(TimeDelta::from_millis(0).millis(), 0);
    assert_eq!(TimeDelta::from_millis(4_294_967_295).millis(), u32::MAX);
    assert_eq!(TimeDelta::from_millis(4_294_967_296).millis(), 0);
    assert_eq!(TimeDelta::from_millis(u128::MAX).millis(), u32::MAX);
}

#[test]
fn walk_begins_at_the_midpoint() {
    let walk = RandomWalk::from_draw(demo_box(), 100_000, trig_for, 0x8000_0000);
    assert_eq!(walk.position(), Point2d(385_000_000, -1_097_500_000));
    assert_eq!(walk.heading(), Heading(1_800_000_000));
    assert_eq!(walk.max_velocity(), 100_000);
    assert_eq!(walk.bbox().upper_left, demo_box().upper_left);
    assert_eq!(walk.bbox().lower_right, demo_box().lower_right);
}

#[test]
fn first_heading_is_a_share_of_a_full_turn() {
    assert_eq!(RandomWalk::from_draw(demo_box(), 1, trig_for, 0).heading(), Heading(0));
    // only the upper 24 bits count
    assert_eq!(RandomWalk::from_draw(demo_box(), 1, trig_for, 0xff).heading(), Heading(0));
    // 0x40_0000 / 2^24 of 360 degrees
    assert_eq!(
        RandomWalk::from_draw(demo_box(), 1, trig_for, 0x4000_0000).heading(),
        Heading(900_000_000)
    );
    // (2^24 - 1) / 2^24 of 360 degrees, rounded down
    assert_eq!(
        RandomWalk::from_draw(demo_box(), 1, trig_for, u32::MAX).heading(),
        Heading(3_599_999_785)
    );
    for _ in 0..100 {
        let heading = RandomWalk::new(demo_box(), 1, trig_for).heading();
        assert!((0..FULL_TURN).contains(&heading.0));
    }
}

#[test]
fn depart_turns_and_measures_the_leg() {
    let mut walk = RandomWalk::from_draw(demo_box(), 100_000, trig_for, 0);
    // half the largest speed for a second, no turn
    let leg = walk.depart_with(TimeDelta::default(), 0x8000_0000, 0x8000_0000);
    assert_eq!(leg.distance_mm, 50_000);
    assert_eq!(leg.heading, Heading(0));
    assert_eq!(leg.origin, Point2d(385_000_000, -1_097_500_000));
    assert_eq!(walk.heading(), Heading(0));
    assert_eq!(walk.position(), Point2d(385_000_000, -1_097_500_000));
    // the largest turn to the left, at rest
    let leg = walk.depart_with(TimeDelta::default(), 0, 0);
    assert_eq!(leg.distance_mm, 0);
    assert_eq!(leg.heading, Heading(FULL_TURN - MAX_TURN));
    // the largest turn to the right, at the largest speed, for a minute
    let leg = walk.depart_with(TimeDelta::from_millis(60_000), u32::MAX, u32::MAX);
    // 100000 * (2^24 - 1) / 2^24 = 99999 mm/s
    assert_eq!(leg.distance_mm, 5_999_940);
    // 10 degrees * (2^24 - 1) / 2^24 - 5 degrees = 49999994
    assert_eq!(leg.heading, Heading(3_599_999_994));
    assert_eq!(walk.heading(), leg.heading);
}

#[test]
fn depart_keeps_speed_and_turn_in_range() {
    let mut walk = RandomWalk::new(demo_box(), 100_000, trig_for);
    for _ in 0..200 {
        let before = walk.heading().0;
        let leg = walk.depart(TimeDelta::from_millis(2_000));
        assert!(leg.distance_mm <= 200_000);
        let turn = (leg.heading.0 - before + FULL_TURN + HALF_TURN) % FULL_TURN - HALF_TURN;
        assert!((-MAX_TURN..MAX_TURN).contains(&turn), "turned by {}", turn);
        assert_eq!(leg.origin, walk.position());
    }
}

#[test]
fn depart_of_the_longest_leg() {
    let mut walk = RandomWalk::from_draw(demo_box(), u32::MAX, trig_for, 0);
    let leg = walk.depart_with(TimeDelta::from_millis(u32::MAX.into()), u32::MAX, 0);
    // (2^32 - 1) * (2^24 - 1) / 2^24 = 4294967039 mm/s for 4294967295 ms
    assert_eq!(leg.distance_mm, 18_446_742_965_607_989);
}

#[test]
fn arrive_moves_inside_the_box() {
    let mut walk = RandomWalk::from_draw(demo_box(), 100_000, trig_for, 0x4000_0000);
    // 11113.292 m to the north are a tenth of a degree
    let msg: Fix = walk.arrive(&leg_of(11_113_292), &plain_trig(0, TRIG_ONE));
    assert_eq!(walk.position(), Point2d(386_000_000, -1_097_500_000));
    assert_eq!(walk.heading(), Heading(900_000_000));
    assert_eq!(msg, Fix { lat: 386_000_000, lon: -1_097_500_000, alt_hae: 0, agent_id: None });
    // 11141.284 m to the west are a tenth of a degree
    let _: Fix = walk.arrive(&leg_of(11_141_284), &plain_trig(-TRIG_ONE, 0));
    assert_eq!(walk.position(), Point2d(386_000_000, -1_098_500_000));
    // 3 m to the south and 4 m to the east
    let _: Fix = walk.arrive(&leg_of(5_000), &plain_trig(800_000_000, -600_000_000));
    assert_eq!(walk.position(), Point2d(385_999_731, -1_098_499_641));
    assert_eq!(walk.heading(), Heading(900_000_000));
}

#[test]
fn arrive_drops_fractions_toward_zero() {
    let mut walk = RandomWalk::from_draw(demo_box(), 100_000, trig_for, 0);
    // 11 mm are not yet a unit of latitude, 12 mm are one
    let _: Fix = walk.arrive(&leg_of(11), &plain_trig(0, TRIG_ONE));
    assert_eq!(walk.position(), Point2d(385_000_000, -1_097_500_000));
    let _: Fix = walk.arrive(&leg_of(11), &plain_trig(0, -TRIG_ONE));
    assert_eq!(walk.position(), Point2d(385_000_000, -1_097_500_000));
    let _: Fix = walk.arrive(&leg_of(12), &plain_trig(0, -TRIG_ONE));
    assert_eq!(walk.position(), Point2d(384_999_999, -1_097_500_000));
    // of 1 mm, 999999999 parts per billion are no millimetre
    let _: Fix = walk.arrive(&leg_of(1), &plain_trig(999_999_999, -999_999_999));
    assert_eq!(walk.position(), Point2d(384_999_999, -1_097_500_000));
    let _: Fix = walk.arrive(&leg_of(0), &plain_trig(TRIG_ONE, TRIG_ONE));
    assert_eq!(walk.position(), Point2d(384_999_999, -1_097_500_000));
    assert_eq!(walk.heading(), Heading(0));
}

#[test]
fn arrive_onto_the_edge_is_not_beyond_it() {
    let mut walk = RandomWalk::from_draw(demo_box(), 100_000, trig_for, 0x4000_0000);
    // half a degree to the north, a quarter of a degree to the east
    let _: Fix = walk.arrive(&leg_of(55_566_460), &plain_trig(0, TRIG_ONE));
    let _: Fix = walk.arrive(&leg_of(27_853_210), &plain_trig(TRIG_ONE, 0));
    assert_eq!(walk.position(), Point2d(390_000_000, -1_095_000_000));
    assert_eq!(walk.heading(), Heading(900_000_000));
}

#[test]
fn arrive_stops_at_the_edge_and_turns_round() {
    let mut walk = RandomWalk::from_draw(demo_box(), 100_000, trig_for, 0x4000_0000);
    // 12 mm more than half a degree to the north
    let msg: Fix = walk.arrive(&leg_of(55_566_472), &plain_trig(0, TRIG_ONE));
    assert_eq!(walk.position(), Point2d(390_000_000, -1_097_500_000));
    assert_eq!(walk.heading(), Heading(2_700_000_000));
    assert_eq!(msg.lat, 390_000_000);
    // more than a degree to the south
    let _: Fix = walk.arrive(&leg_of(111_132_932), &plain_trig(0, -TRIG_ONE));
    assert_eq!(walk.position(), Point2d(380_000_000, -1_097_500_000));
    assert_eq!(walk.heading(), Heading(900_000_000));
    // more than a quarter of a degree to the west
    let _: Fix = walk.arrive(&leg_of(27_853_222), &plain_trig(-TRIG_ONE, 0));
    assert_eq!(walk.position(), Point2d(380_000_000, -1_100_000_000));
    assert_eq!(walk.heading(), Heading(2_700_000_000));
    // more than half a degree to the east
    let _: Fix = walk.arrive(&leg_of(55_706_432), &plain_trig(TRIG_ONE, 0));
    assert_eq!(walk.position(), Point2d(380_000_000, -1_095_000_000));
    assert_eq!(walk.heading(), Heading(900_000_000));
}

#[test]
fn arrive_in_a_corner_turns_round_once() {
    let mut walk = RandomWalk::from_draw(demo_box(), 100_000, trig_for, 0);
    let _: Fix = walk.arrive(&leg_of(u64::MAX), &plain_trig(i32::MIN, i32::MAX));
    assert_eq!(walk.position(), Point2d(390_000_000, -1_100_000_000));
    assert_eq!(walk.heading(), Heading(HALF_TURN));
    let _: Fix = walk.arrive(&leg_of(u64::MAX), &plain_trig(i32::MAX, i32::MIN));
    assert_eq!(walk.position(), Point2d(380_000_000, -1_095_000_000));
    assert_eq!(walk.heading(), Heading(0));
}

#[test]
fn arrive_where_a_degree_of_longitude_has_no_length() {
    let pole =
        LatCosines { cos1: 0, cos2: -TRIG_ONE, cos3: 0, cos4: TRIG_ONE, cos5: 0, cos6: -TRIG_ONE };
    let mut walk = RandomWalk::from_draw(demo_box(), 100_000, trig_for, 0);
    assert!(FAR > i64::from(u32::MAX));
    // nothing to the east or west stays where it is
    let trig = LegTrig { cos_heading: 0, sin_heading: 0, latitude: pole };
    let _: Fix = walk.arrive(&leg_of(1_000), &trig);
    assert_eq!(walk.position(), Point2d(385_000_000, -1_097_500_000));
    assert_eq!(walk.heading(), Heading(0));
    // a millimetre to the east carries to the edge
    let trig = LegTrig { cos_heading: TRIG_ONE, sin_heading: 0, latitude: pole };
    let _: Fix = walk.arrive(&leg_of(1), &trig);
    assert_eq!(walk.position(), Point2d(385_000_000, -1_095_000_000));
    assert_eq!(walk.heading(), Heading(HALF_TURN));
    let trig = LegTrig { cos_heading: -TRIG_ONE, sin_heading: 0, latitude: pole };
    let _: Fix = walk.arrive(&leg_of(1), &trig);
    assert_eq!(walk.position(), Point2d(385_000_000, -1_100_000_000));
    assert_eq!(walk.heading(), Heading(0));
}

#[test]
fn walk_stays_in_its_box_whatever_comes() {
    let ratios = [i32::MAX, i32::MIN, 0, 1, -1, TRIG_ONE, -TRIG_ONE, 707_106_781, -3];
    let distances = [u64::MAX, 0, 1, 5_000, 70_000_000, 1 << 40];
    let mut walk = RandomWalk::new(demo_box(), u32::MAX, trig_for);
    for cos in ratios.iter() {
        for sin in ratios.iter() {
            for distance_mm in distances.iter() {
                let leg = walk.depart(TimeDelta::from_millis(u128::MAX));
                assert_eq!(leg.origin, walk.position());
                let trig = LegTrig {
                    cos_heading: *cos,
                    sin_heading: *sin,
                    latitude: LatCosines {
                        cos1: *sin,
                        cos2: *cos,
                        cos3: *cos,
                        cos4: *sin,
                        cos5: *sin,
                        cos6: *cos,
                    },
                };
                let _: Fix = walk.arrive(&leg_of(*distance_mm), &trig);
                let Point2d(lat, lon) = walk.position();
                assert!((380_000_000..=390_000_000).contains(&lat));
                assert!((-1_100_000_000..=-1_095_000_000).contains(&lon));
                assert!((0..FULL_TURN).contains(&walk.heading().0));
                let _: Fix = walk.arrive(&leg, &trig_for(leg));
                let Point2d(lat, lon) = walk.position();
                assert!((380_000_000..=390_000_000).contains(&lat));
                assert!((-1_100_000_000..=-1_095_000_000).contains(&lon));
            }
        }
    }
}

#[test]
fn walk_in_a_box_turned_over_stays_between_the_corners() {
    let bbox = BBoxWGS {
        upper_left: Point2d(380_000_000, -1_095_000_000),
        lower_right: Point2d(390_000_000, -1_100_000_000),
    };
    let mut walk = RandomWalk::from_draw(bbox, 100_000, trig_for, 0);
    assert_eq!(walk.position(), Point2d(385_000_000, -1_097_500_000));
    // the upper edge is below: every step ends on a corner
    let _: Fix = walk.arrive(&leg_of(0), &plain_trig(0, 0));
    assert_eq!(walk.position(), Point2d(380_000_000, -1_095_000_000));
    assert_eq!(walk.heading(), Heading(HALF_TURN));
    let _: Fix = walk.arrive(&leg_of(12), &plain_trig(TRIG_ONE, -TRIG_ONE));
    assert_eq!(walk.position(), Point2d(390_000_000, -1_100_000_000));
    assert_eq!(walk.heading(), Heading(0));
}

#[test]
fn a_step_follows_the_heading() {
    // at 38.5 degrees north, a degree of latitude is about 111 km, one of longitude 87 km
    let mut walk = RandomWalk::from_draw(demo_box(), 100_000, trig_for, 0);
    let leg = walk.depart_with(TimeDelta::from_millis(10_000), u32::MAX, 0x8000_0000);
    assert_eq!(leg.heading, Heading(0));
    assert_eq!(leg.distance_mm, 999_990);
    // the cosine of the heading goes east, its sine north
    let _: Fix = walk.arrive(&leg, &trig_for(leg));
    assert_eq!(walk.position(), Point2d(385_000_000, -1_097_385_366));
    let mut walk = RandomWalk::from_draw(demo_box(), 100_000, trig_for, 0x4000_0000);
    let leg = walk.depart_with(TimeDelta::from_millis(10_000), u32::MAX, 0x8000_0000);
    assert_eq!(leg.heading, Heading(900_000_000));
    let _: Fix = walk.arrive(&leg, &trig_for(leg));
    assert_eq!(walk.position(), Point2d(385_090_084, -1_097_500_000));
}

#[test]
fn next_is_a_departure_and_the_arrival_after_it() {
    let mut walk = RandomWalk::from_draw(demo_box(), 100_000, trig_for, 0);
    let _: Fix = walk.next_with(TimeDelta::from_millis(10_000), u32::MAX, 0x8000_0000);
    let mut halves = RandomWalk::from_draw(demo_box(), 100_000, trig_for, 0);
    let leg = halves.depart_with(TimeDelta::from_millis(10_000), u32::MAX, 0x8000_0000);
    let _: Fix = halves.arrive(&leg, &trig_for(leg));
    assert_eq!(walk.position(), halves.position());
    assert_eq!(walk.heading(), halves.heading());
    assert_eq!(walk.position(), Point2d(385_000_000, -1_097_385_366));
}

#[test]
fn next_asks_for_the_sines_and_cosines_of_its_leg() {
    // whatever the heading, go north
    let north = |leg: Leg| {
        assert_eq!(leg.origin, Point2d(385_000_000, -1_097_500_000));
        assert_eq!(leg.heading, Heading(FULL_TURN - MAX_TURN));
        assert_eq!(leg.distance_mm, 11_113_292);
        plain_trig(0, TRIG_ONE)
    };
    // 11113.292 m in a second
    let mut walk = RandomWalk::from_draw(demo_box(), 11_113_293, north, 0);
    let msg: Fix = walk.next_with(TimeDelta::default(), u32::MAX, 0);
    assert_eq!(msg, Fix { lat: 386_000_000, lon: -1_097_500_000, alt_hae: 0, agent_id: None });
    assert_eq!(walk.position(), Point2d(386_000_000, -1_097_500_000));
    assert_eq!(walk.heading(), Heading(FULL_TURN - MAX_TURN));
}

#[test]
fn next_turns_round_at_the_edge() {
    let east = |_leg: Leg| plain_trig(TRIG_ONE, 0);
    let mut walk = RandomWalk::from_draw(demo_box(), u32::MAX, east, 0);
    // no turn, then 180 degrees at the edge
    let msg: Fix = walk.next_with(TimeDelta::from_millis(60_000), u32::MAX, 0x8000_0000);
    assert_eq!(msg.lon, -1_095_000_000);
    assert_eq!(walk.position(), Point2d(385_000_000, -1_095_000_000));
    assert_eq!(walk.heading(), Heading(HALF_TURN));
    // at rest nothing is met
    let _: Fix = walk.next_with(TimeDelta::from_millis(60_000), 0, 0x8000_0000);
    assert_eq!(walk.position(), Point2d(385_000_000, -1_095_000_000));
    assert_eq!(walk.heading(), Heading(HALF_TURN));
}
