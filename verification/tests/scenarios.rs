use osm2lanes::{
    tags_to_lanes, Color, Config, Designated, Direction, DrivingSide, Lane, Locale, Marking,
    Markings, Metre, MsgKind, RoadError, Style, Tags,
};

fn tags(pairs: &[(&str, &str)]) -> Tags {
    let mut tags = Tags::new();
    for (key, value) in pairs {
        tags.insert(key, value);
    }
    tags
}

fn rht() -> Locale {
    Locale::new(DrivingSide::Right, true)
}

fn travel(direction: Direction, designated: Designated, millimetres: u32) -> Lane {
    Lane::Travel {
        direction: Some(direction),
        designated,
        width: Some(Metre::from_millimetres(millimetres)),
        max_speed: None,
        access: None,
    }
}

fn motor(direction: Direction) -> Lane {
    travel(direction, Designated::Motor, 3500)
}

fn shoulder() -> Lane {
    Lane::Shoulder { width: Some(Metre::from_millimetres(3500)) }
}

fn sidewalk() -> Lane {
    Lane::Travel {
        direction: None,
        designated: Designated::Foot,
        width: Some(Metre::from_millimetres(1500)),
        max_speed: None,
        access: None,
    }
}

fn separator(markings: &[(Style, Option<Color>)]) -> Lane {
    Lane::Separator {
        markings: Markings::new(
            markings.iter().map(|(style, color)| Marking::new(*style, *color)).collect(),
        ),
    }
}

fn solid_white() -> Lane {
    separator(&[(Style::SolidLine, Some(Color::White))])
}

fn double_yellow() -> Lane {
    separator(&[(Style::SolidLine, Some(Color::Yellow)), (Style::SolidLine, Some(Color::Yellow))])
}

fn plain() -> Config {
    Config::new(false, false)
}

#[test]
fn residential_has_two_lanes_and_shoulders() {
    let result =
        tags_to_lanes(&tags(&[("highway", "residential")]), &rht(), &plain()).unwrap();
    assert_eq!(
        result.road.lanes,
        vec![shoulder(), motor(Direction::Backward), motor(Direction::Forward), shoulder()]
    );
    assert!(result.warnings.is_empty());
}

#[test]
fn residential_with_separators() {
    let result = tags_to_lanes(&tags(&[("highway", "residential")]), &rht(), &Config::default())
        .unwrap();
    assert_eq!(
        result.road.lanes,
        vec![
            shoulder(),
            solid_white(),
            motor(Direction::Backward),
            double_yellow(),
            motor(Direction::Forward),
            solid_white(),
            shoulder(),
        ]
    );
}

#[test]
fn primary_oneway_with_sidewalk_right() {
    let result = tags_to_lanes(
        &tags(&[("highway", "primary"), ("lanes", "4"), ("oneway", "yes"), ("sidewalk", "right")]),
        &rht(),
        &plain(),
    )
    .unwrap();
    assert_eq!(
        result.road.lanes,
        vec![
            motor(Direction::Forward),
            motor(Direction::Forward),
            motor(Direction::Forward),
            motor(Direction::Forward),
            sidewalk(),
        ]
    );
}

#[test]
fn cycleway_track_both_sides() {
    let bicycle = |direction| travel(direction, Designated::Bicycle, 1500);
    let input = tags(&[("highway", "residential"), ("cycleway", "track")]);
    let result = tags_to_lanes(&input, &rht(), &plain()).unwrap();
    assert_eq!(
        result.road.lanes,
        vec![
            shoulder(),
            bicycle(Direction::Backward),
            motor(Direction::Backward),
            motor(Direction::Forward),
            bicycle(Direction::Forward),
            shoulder(),
        ]
    );
    let result = tags_to_lanes(&input, &rht(), &Config::default()).unwrap();
    assert_eq!(
        result.road.lanes,
        vec![
            shoulder(),
            solid_white(),
            bicycle(Direction::Backward),
            solid_white(),
            motor(Direction::Backward),
            double_yellow(),
            motor(Direction::Forward),
            solid_white(),
            bicycle(Direction::Forward),
            solid_white(),
            shoulder(),
        ]
    );
}

#[test]
fn cycleway_right_two_way_on_oneway() {
    let result = tags_to_lanes(
        &tags(&[
            ("highway", "residential"),
            ("oneway", "yes"),
            ("cycleway:right", "track"),
            ("cycleway:right:oneway", "no"),
        ]),
        &rht(),
        &plain(),
    )
    .unwrap();
    assert_eq!(
        result.road.lanes,
        vec![motor(Direction::Forward), travel(Direction::Both, Designated::Bicycle, 1500), shoulder()]
    );
}

#[test]
fn busway_lane_reserves_outermost_lanes() {
    let bus = |direction| travel(direction, Designated::Bus, 3500);
    let result = tags_to_lanes(
        &tags(&[("highway", "tertiary"), ("busway", "lane"), ("lanes", "4")]),
        &rht(),
        &plain(),
    )
    .unwrap();
    assert_eq!(
        result.road.lanes,
        vec![
            shoulder(),
            bus(Direction::Backward),
            motor(Direction::Backward),
            motor(Direction::Forward),
            bus(Direction::Forward),
            shoulder(),
        ]
    );
    let result =
        tags_to_lanes(&tags(&[("highway", "tertiary"), ("busway", "lane")]), &rht(), &plain())
            .unwrap();
    assert_eq!(
        result.road.lanes,
        vec![shoulder(), bus(Direction::Backward), bus(Direction::Forward), shoulder()]
    );
}

#[test]
fn bus_lanes_by_lane_on_oneway() {
    let bus = travel(Direction::Forward, Designated::Bus, 3500);
    let result = tags_to_lanes(
        &tags(&[
            ("highway", "residential"),
            ("oneway", "yes"),
            ("lanes", "3"),
            ("bus:lanes", "designated|yes|designated"),
        ]),
        &rht(),
        &plain(),
    )
    .unwrap();
    assert_eq!(
        result.road.lanes,
        vec![bus.clone(), motor(Direction::Forward), bus, shoulder()]
    );
}

#[test]
fn bus_lanes_of_another_length_change_nothing() {
    let result = tags_to_lanes(
        &tags(&[
            ("highway", "residential"),
            ("oneway", "yes"),
            ("lanes", "3"),
            ("bus:lanes", "designated|yes"),
        ]),
        &rht(),
        &plain(),
    )
    .unwrap();
    assert_eq!(
        result.road.lanes,
        vec![
            motor(Direction::Forward),
            motor(Direction::Forward),
            motor(Direction::Forward),
            shoulder()
        ]
    );
}

#[test]
fn one_lane_on_a_two_way_road_is_ambiguous() {
    let result =
        tags_to_lanes(&tags(&[("highway", "residential"), ("lanes", "1")]), &rht(), &plain())
            .unwrap();
    assert_eq!(
        result.road.lanes,
        vec![shoulder(), motor(Direction::Backward), motor(Direction::Forward), shoulder()]
    );
    assert_eq!(result.warnings.len(), 1);
    let warning = result.warnings.get(0).unwrap();
    assert_eq!(warning.kind, MsgKind::Ambiguous);
    assert_eq!(warning.tags.get("lanes"), Some("1"));
    assert_eq!(warning.tags.get("highway"), None);
}

#[test]
fn three_lanes_with_a_centre_turn_lane() {
    let result = tags_to_lanes(
        &tags(&[("highway", "residential"), ("lanes", "3"), ("lanes:both_ways", "1")]),
        &rht(),
        &plain(),
    )
    .unwrap();
    assert_eq!(
        result.road.lanes,
        vec![
            shoulder(),
            motor(Direction::Backward),
            motor(Direction::Both),
            motor(Direction::Forward),
            shoulder(),
        ]
    );
    assert!(result.warnings.is_empty());
    let result = tags_to_lanes(
        &tags(&[("highway", "residential"), ("lanes", "3"), ("lanes:both_ways", "1")]),
        &rht(),
        &Config::default(),
    )
    .unwrap();
    assert_eq!(
        result.road.lanes[3],
        separator(&[(Style::SolidLine, Some(Color::Yellow)), (Style::BrokenLine, Some(Color::Yellow))])
    );
    assert_eq!(
        result.road.lanes[5],
        separator(&[(Style::BrokenLine, Some(Color::Yellow)), (Style::SolidLine, Some(Color::Yellow))])
    );
}

#[test]
fn reversible_oneway_is_an_error() {
    let result = tags_to_lanes(
        &tags(&[("highway", "residential"), ("oneway", "reversible")]),
        &rht(),
        &plain(),
    );
    match result {
        Err(RoadError::Msg(msg)) => {
            assert_eq!(msg.kind, MsgKind::Unimplemented);
            assert_eq!(msg.description, "oneway=reversible");
            assert_eq!(msg.tags.get("oneway"), Some("reversible"));
        },
        other => panic!("unexpected {:?}", other),
    }
}

#[test]
fn empty_tags_give_two_lanes_and_shoulders() {
    let result = tags_to_lanes(&Tags::new(), &rht(), &plain()).unwrap();
    assert_eq!(
        result.road.lanes,
        vec![shoulder(), motor(Direction::Backward), motor(Direction::Forward), shoulder()]
    );
}

#[test]
fn warnings_become_an_error_on_request() {
    let input = tags(&[("highway", "residential"), ("lanes", "1")]);
    match tags_to_lanes(&input, &rht(), &Config::new(true, false)) {
        Err(RoadError::Warnings(warnings)) => assert_eq!(warnings.len(), 1),
        other => panic!("unexpected {:?}", other),
    }
    assert!(tags_to_lanes(
        &tags(&[("highway", "residential")]),
        &rht(),
        &Config::new(true, false)
    )
    .is_ok());
}
