use osm2lanes::transform::road_to_tags::{lane_in_short, lanes_in_short};
use osm2lanes::{
    road_to_tags, tags_to_lanes, Access, AccessValue, Color, Config, Designated, Direction,
    DrivingSide, HighwayType, Lane, LaneSpec, LaneType, Locale, Marking, Markings, Road, Style,
    Tags,
};

fn entries(pairs: &[(&str, &str)]) -> Tags {
    let mut tags = Tags::new();
    for (key, value) in pairs {
        tags.insert(key, value);
    }
    tags
}

fn lane(direction: Option<Direction>, designated: Designated, access: Option<Access>) -> Lane {
    Lane::Travel { direction, designated, width: None, max_speed: None, access }
}

fn closed() -> Access {
    let no = Some(AccessValue::No);
    Access { foot: no, bicycle: no, taxi: no, bus: no, motor: no }
}

#[test]
fn finished_lanes_in_short() {
    let spec = |lane_type, designated, direction| Some(LaneSpec { lane_type, designated, direction });
    assert_eq!(
        lane_in_short(&lane(Some(Direction::Forward), Designated::Bus, None)),
        spec(LaneType::Travel, Some(Designated::Bus), Some(Direction::Forward))
    );
    assert_eq!(
        lane_in_short(&lane(None, Designated::Foot, None)),
        spec(LaneType::Travel, Some(Designated::Foot), None)
    );
    assert_eq!(
        lane_in_short(&lane(Some(Direction::Both), Designated::Motor, None)),
        spec(LaneType::SharedLeftTurn, Some(Designated::Motor), Some(Direction::Both))
    );
    assert_eq!(
        lane_in_short(&lane(Some(Direction::Both), Designated::Bicycle, None)),
        spec(LaneType::Travel, Some(Designated::Bicycle), Some(Direction::Both))
    );
    assert_eq!(
        lane_in_short(&lane(Some(Direction::Backward), Designated::Motor, Some(closed()))),
        spec(LaneType::Construction, Some(Designated::Motor), Some(Direction::Backward))
    );
    let open = Access { motor: Some(AccessValue::Yes), ..closed() };
    assert_eq!(
        lane_in_short(&lane(Some(Direction::Backward), Designated::Motor, Some(open))),
        spec(LaneType::Travel, Some(Designated::Motor), Some(Direction::Backward))
    );
    assert_eq!(
        lane_in_short(&Lane::Parking {
            direction: Direction::Backward,
            designated: Designated::Motor,
            width: None
        }),
        spec(LaneType::Parking, Some(Designated::Motor), Some(Direction::Backward))
    );
    assert_eq!(
        lane_in_short(&Lane::Shoulder { width: None }),
        spec(LaneType::Shoulder, None, Some(Direction::Both))
    );
    let separator = Lane::Separator {
        markings: Markings::new(vec![Marking::new(Style::SolidLine, Some(Color::White))]),
    };
    assert_eq!(lane_in_short(&separator), None);
    assert_eq!(
        lanes_in_short(&vec![
            separator.clone(),
            Lane::Shoulder { width: None },
            separator.clone(),
            separator,
            lane(None, Designated::Foot, None),
        ]),
        vec![
            LaneSpec::both(LaneType::Shoulder),
            LaneSpec::_none(LaneType::Travel).designated(Designated::Foot),
        ]
    );
}

#[test]
fn tags_of_a_finished_road() {
    let locale = Locale::default();
    let tags = entries(&[
        ("highway", "primary"),
        ("lanes", "3"),
        ("lanes:both_ways", "1"),
        ("sidewalk", "right"),
        ("parking:lane:both", "parallel"),
    ]);
    let road = tags_to_lanes(&tags, &locale, &Config::default()).unwrap().road;
    assert_eq!(
        road_to_tags(&road, &locale).unwrap(),
        entries(&[
            ("highway", "yes"),
            ("lanes", "3"),
            ("sidewalk", "right"),
            ("parking:lane:both", "parallel"),
            ("lanes:both_ways", "1"),
            ("turn:lanes:both_ways", "left"),
        ])
    );
    let empty = Road { lanes: vec![], highway: HighwayType::Other };
    assert_eq!(road_to_tags(&empty, &locale).unwrap_err().to_string(), "no lanes");
    let separators = Road {
        lanes: vec![Lane::Separator { markings: Markings::new(vec![]) }],
        highway: HighwayType::Other,
    };
    assert!(road_to_tags(&separators, &locale).is_err());
}

#[test]
fn roads_inferred_from_their_own_tags_are_the_same() {
    for pairs in [
        vec![],
        vec![("highway", "residential")],
        vec![("highway", "residential"), ("sidewalk", "both")],
        vec![("highway", "primary"), ("lanes", "4")],
        vec![("highway", "primary"), ("lanes", "5"), ("sidewalk", "both")],
        vec![("highway", "primary"), ("lanes", "3"), ("oneway", "yes")],
        vec![("highway", "secondary"), ("oneway", "yes"), ("sidewalk", "both")],
        vec![("highway", "primary"), ("lanes", "3"), ("lanes:both_ways", "1")],
    ] {
        for side in [DrivingSide::Right, DrivingSide::Left] {
            for inferred in [false, true] {
                for separators in [false, true] {
                    let locale = Locale::new(side, inferred);
                    let config = Config::new(true, separators);
                    let first = tags_to_lanes(&entries(&pairs), &locale, &config).unwrap().road;
                    let tags = road_to_tags(&first, &locale).unwrap();
                    let again = tags_to_lanes(&tags, &locale, &config).unwrap().road;
                    assert_eq!(again.lanes, first.lanes, "{:?}", pairs);
                }
            }
        }
    }
}
