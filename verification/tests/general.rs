use osm2lanes::transform::modes::bicycle::bicycle;
use osm2lanes::transform::modes::bus::bus;
use osm2lanes::transform::modes::foot_shoulder::foot_and_shoulder;
use osm2lanes::transform::modes::parking::parking;
use osm2lanes::transform::tags_to_lanes::infer_road;
use osm2lanes::{
    tags_to_lanes, Config, DrivingSide, HighwayType, Infer, Lane, LaneBuilder, Locale, MsgKind,
    RoadError, RoadWarnings, Tags,
};

fn store(pairs: &[(&str, &str)]) -> Tags {
    let mut tags = Tags::new();
    for (key, value) in pairs {
        tags.insert(key, value);
    }
    tags
}

fn samples() -> Vec<Vec<(&'static str, &'static str)>> {
    vec![
        vec![],
        vec![("highway", "residential")],
        vec![("highway", "motorway"), ("lanes", "3"), ("oneway", "yes")],
        vec![("highway", "primary"), ("lanes", "5"), ("lanes:both_ways", "1"), ("sidewalk", "both")],
        vec![("highway", "tertiary"), ("busway", "lane"), ("sidewalk", "left")],
        vec![("highway", "tertiary"), ("busway:right", "lane"), ("sidewalk", "right")],
        vec![("highway", "secondary"), ("bus:lanes:forward", "designated"), ("parking:lane:both", "diagonal")],
        vec![("highway", "living_street"), ("oneway", "yes")],
        vec![("highway", "construction"), ("access", "no")],
        vec![("highway", "cycleway"), ("oneway", "yes")],
        vec![("highway", "footway")],
        vec![("highway", "steps")],
        vec![("highway", "primary"), ("access", "no"), ("bus", "yes"), ("lanes", "2")],
        vec![("highway", "primary"), ("junction", "roundabout"), ("lanes", "2")],
    ]
}

fn width_of(lane: &Lane) -> Option<u32> {
    match lane {
        Lane::Travel { width, .. } | Lane::Parking { width, .. } => width.map(|w| w.val()),
        _ => None,
    }
}

#[test]
fn every_road_has_lanes_of_positive_width() {
    for pairs in samples() {
        for side in [DrivingSide::Right, DrivingSide::Left] {
            for separators in [false, true] {
                let locale = Locale::new(side, true);
                let tags = match side {
                    DrivingSide::Right => store(&pairs),
                    DrivingSide::Left => store(&mirrored(&pairs)),
                };
                let road =
                    tags_to_lanes(&tags, &locale, &Config::new(false, separators)).unwrap().road;
                assert!(!road.lanes.is_empty());
                for lane in &road.lanes {
                    if matches!(lane, Lane::Travel { .. } | Lane::Parking { .. }) {
                        assert!(width_of(lane).unwrap() > 0);
                        assert!(lane.width(&locale, road.highway).val() > 0);
                    }
                }
            }
        }
    }
}

#[test]
fn separators_and_lanes_alternate_in_every_road() {
    for pairs in samples() {
        let road = tags_to_lanes(&store(&pairs), &Locale::default(), &Config::default()).unwrap().road;
        for pair in road.lanes.windows(2) {
            let separators = pair.iter().filter(|lane| matches!(lane, Lane::Separator { .. })).count();
            assert_eq!(separators, 1, "{:?}", pairs);
        }
        assert!(!matches!(road.lanes[0], Lane::Separator { .. }));
    }
}

fn mirrored(pairs: &[(&'static str, &'static str)]) -> Vec<(&'static str, &'static str)> {
    pairs
        .iter()
        .map(|(key, value)| match (*key, *value) {
            ("busway:left", v) => ("busway:right", v),
            ("busway:right", v) => ("busway:left", v),
            ("parking:lane:left", v) => ("parking:lane:right", v),
            ("parking:lane:right", v) => ("parking:lane:left", v),
            ("cycleway:left", v) => ("cycleway:right", v),
            ("cycleway:right", v) => ("cycleway:left", v),
            ("sidewalk", "left") => ("sidewalk", "right"),
            ("sidewalk", "right") => ("sidewalk", "left"),
            other => other,
        })
        .collect()
}

#[test]
fn the_mirrored_tags_give_the_mirrored_road() {
    let mut cases = samples();
    cases.push(vec![("highway", "footway"), ("parking:lane:right", "parallel")]);
    cases.push(vec![("highway", "cycleway"), ("cycleway:left", "lane")]);
    cases.push(vec![("highway", "residential"), ("parking:lane:both", "diagonal")]);
    cases.push(vec![
        ("highway", "construction"),
        ("access", "no"),
        ("parking:lane:left", "parallel"),
        ("cycleway:right", "track"),
    ]);
    for pairs in cases {
        for separators in [false, true] {
            let config = Config::new(false, separators);
            let right = tags_to_lanes(&store(&pairs), &Locale::new(DrivingSide::Right, true), &config).unwrap();
            let left =
                tags_to_lanes(&store(&mirrored(&pairs)), &Locale::new(DrivingSide::Left, true), &config).unwrap();
            let mut expected: Vec<Lane> = right.road.lanes.into_iter().map(|lane| lane.mirror()).collect();
            expected.reverse();
            assert_eq!(left.road.lanes, expected, "{:?}", pairs);
            assert_eq!(left.road.highway, right.road.highway);
        }
    }
}

fn rank<T>(value: &Infer<T>) -> u8 {
    match value {
        Infer::Absent => 0,
        Infer::Default(_) => 1,
        Infer::Calculated(_) => 2,
        Infer::Direct(_) => 3,
    }
}

fn kept(earlier: &[LaneBuilder], later: &[LaneBuilder]) -> bool {
    let mut at = 0;
    for lane in earlier {
        loop {
            if at == later.len() {
                return false;
            }
            let candidate = &later[at];
            at += 1;
            if candidate.lane_type == lane.lane_type
                && rank(&candidate.direction) >= rank(&lane.direction)
                && rank(&candidate.designated) >= rank(&lane.designated)
                && rank(&candidate.width) >= rank(&lane.width)
            {
                break;
            }
        }
    }
    true
}

#[test]
fn one_sided_parking_is_not_mirrored() {
    let config = Config::new(false, false);
    let right = tags_to_lanes(
        &store(&[("highway", "residential"), ("parking:lane:right", "parallel")]),
        &Locale::new(DrivingSide::Right, true),
        &config,
    )
    .unwrap();
    let left = tags_to_lanes(
        &store(&[("highway", "residential"), ("parking:lane:left", "parallel")]),
        &Locale::new(DrivingSide::Left, true),
        &config,
    )
    .unwrap();
    let mut expected = right.road.lanes;
    expected.reverse();
    assert_ne!(left.road.lanes, expected);
}

#[test]
fn no_pass_lowers_the_level_of_an_inference() {
    let locale = Locale::default();
    let mut cases = samples();
    cases.push(vec![("highway", "residential"), ("cycleway:left", "lane"), ("oneway", "yes"), ("cycleway:left:separation:right", "kerb")]);
    cases.push(vec![("highway", "residential"), ("cycleway", "track"), ("busway:both", "lane")]);
    for pairs in cases {
        let tags = store(&pairs);
        let mut road = osm2lanes::RoadBuilder::from(&tags, &locale);
        let mut warnings = RoadWarnings::new();
        road.add_driving_lanes(&tags, &locale, &mut warnings);
        let start = road.clone();
        let _ = bus(&tags, &locale, &mut road, &mut warnings);
        assert!(kept(&start.forward_lanes, &road.forward_lanes));
        assert!(kept(&start.backward_lanes, &road.backward_lanes));
        let after_bus = road.clone();
        let _ = bicycle(&tags, &locale, &mut road, &mut warnings);
        assert!(kept(&after_bus.forward_lanes, &road.forward_lanes));
        assert!(kept(&after_bus.backward_lanes, &road.backward_lanes));
        let after_bicycle = road.clone();
        parking(&tags, &locale, &mut road);
        foot_and_shoulder(&tags, &locale, &mut road);
        assert!(kept(&after_bicycle.forward_lanes, &road.forward_lanes));
        assert!(kept(&after_bicycle.backward_lanes, &road.backward_lanes));
        assert!(kept(&start.forward_lanes, &road.forward_lanes));
    }
}

#[test]
fn the_inference_is_the_same_every_time() {
    for pairs in samples() {
        let first = tags_to_lanes(&store(&pairs), &Locale::default(), &Config::default()).unwrap();
        let second = tags_to_lanes(&store(&pairs), &Locale::default(), &Config::default()).unwrap();
        assert_eq!(first, second);
    }
}

#[test]
fn a_closed_road_under_construction_skips_the_passes() {
    let tags = store(&[
        ("highway", "construction"),
        ("access", "no"),
        ("cycleway", "lane"),
        ("parking:lane:both", "parallel"),
        ("sidewalk", "both"),
        ("busway", "lane"),
    ]);
    let mut warnings = RoadWarnings::new();
    let road = infer_road(&tags, &Locale::default(), &mut warnings).unwrap();
    assert_eq!(road.forward_lanes.len(), 1);
    assert_eq!(road.backward_lanes.len(), 1);
    assert_eq!(road.highway, HighwayType::Construction);
    assert_eq!(warnings.len(), 1);
    assert_eq!(warnings.get(0).unwrap().kind, MsgKind::Unimplemented);
    let lanes = tags_to_lanes(&tags, &Locale::default(), &Config::new(false, false)).unwrap().road.lanes;
    assert_eq!(lanes.len(), 2);
    for lane in lanes {
        match lane {
            Lane::Travel { access: Some(access), .. } => {
                assert_eq!(access.motor, Some(osm2lanes::AccessValue::No))
            },
            other => panic!("unexpected {:?}", other),
        }
    }
}

#[test]
fn a_road_without_lanes_is_an_error() {
    let tags = store(&[("lanes:forward", "0"), ("lanes:backward", "0"), ("highway", "motorway")]);
    match tags_to_lanes(&tags, &Locale::default(), &Config::default()) {
        Err(RoadError::Msg(msg)) => {
            assert_eq!(msg.kind, MsgKind::Unsupported);
            assert_eq!(msg.description, "no lanes");
        },
        other => panic!("unexpected {:?}", other),
    }
}

#[test]
fn errors_of_the_passes_stop_the_inference() {
    let kind = |pairs: &[(&str, &str)], locale: Locale| match tags_to_lanes(&store(pairs), &locale, &Config::default()) {
        Err(RoadError::Msg(msg)) => msg.kind,
        other => panic!("unexpected {:?}", other),
    };
    let rht = Locale::default();
    assert_eq!(kind(&[("busway:both", "lane"), ("oneway", "yes")], rht), MsgKind::Ambiguous);
    assert_eq!(kind(&[("busway:both", "lane"), ("oneway:bus", "yes"), ("lanes", "2")], rht), MsgKind::Ambiguous);
    assert_eq!(kind(&[("busway", "lane"), ("lanes:bus", "1")], rht), MsgKind::Unsupported);
    assert_eq!(kind(&[("busway:right", "lane"), ("lanes:psv:forward", "1")], rht), MsgKind::Unsupported);
    assert_eq!(kind(&[("busway:left", "lane")], rht), MsgKind::Ambiguous);
    assert_eq!(kind(&[("busway", "lane"), ("lanes:bus", "1"), ("bus:lanes", "yes")], rht), MsgKind::Unsupported);
    assert_eq!(kind(&[("cycleway", "lane"), ("cycleway:both", "lane")], rht), MsgKind::Unsupported);
    assert_eq!(kind(&[("cycleway:right", "lane")], Locale::new(DrivingSide::Left, true)), MsgKind::Unsupported);
    assert_eq!(kind(&[("oneway", "reversible")], rht), MsgKind::Unimplemented);
}

#[test]
fn the_shared_turn_lane_appears_once_on_the_forward_side() {
    for pairs in [
        vec![("lanes", "5"), ("lanes:both_ways", "1")],
        vec![("centre_turn_lane", "yes"), ("lanes:both_ways", "1"), ("busway", "lane")],
        vec![("centre_turn_lane", "yes"), ("oneway", "yes"), ("cycleway:left", "lane")],
        vec![("highway", "residential")],
    ] {
        let tags = store(&pairs);
        let mut warnings = RoadWarnings::new();
        let road = infer_road(&tags, &Locale::default(), &mut warnings).unwrap();
        let turn = |lanes: &Vec<LaneBuilder>| {
            lanes.iter().filter(|lane| lane.lane_type == osm2lanes::LaneType::SharedLeftTurn).count()
        };
        assert_eq!(turn(&road.forward_lanes), if pairs.len() > 1 { 1 } else { 0 });
        assert_eq!(turn(&road.backward_lanes), 0);
    }
}
