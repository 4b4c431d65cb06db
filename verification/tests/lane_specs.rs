use osm2lanes::transform::separator::{insert_separators, remove_separators, separator_between};
use osm2lanes::{
    get_lane_specs_ltr, get_lane_specs_ltr_with_warnings, lanes_to_tags, tags_to_lanes,
    BufferType, Color, Config, Designated, Direction, DrivingSide, Lane, LaneSpec, LaneSpecError,
    LaneSpecWarning, LaneSpecWarnings, LaneType, Locale, Marking, Markings, Style, Tags,
};

fn store(pairs: &[(&str, &str)]) -> Tags {
    let mut tags = Tags::new();
    for (key, value) in pairs {
        tags.insert(key, value);
    }
    tags
}

fn rht() -> Locale {
    Locale::new(DrivingSide::Right, true)
}

fn motor(direction: Direction) -> LaneSpec {
    match direction {
        Direction::Forward => LaneSpec::forward(LaneType::Travel),
        Direction::Backward => LaneSpec::backward(LaneType::Travel),
        Direction::Both => LaneSpec::both(LaneType::Travel),
    }
    .designated(Designated::Motor)
}

fn bike(direction: Direction) -> LaneSpec {
    LaneSpec { lane_type: LaneType::Travel, designated: Some(Designated::Bicycle), direction: Some(direction) }
}

fn sidewalk() -> LaneSpec {
    LaneSpec::_none(LaneType::Travel).designated(Designated::Foot)
}

fn shoulder() -> LaneSpec {
    LaneSpec::both(LaneType::Shoulder)
}

fn parking(direction: Direction) -> LaneSpec {
    LaneSpec { lane_type: LaneType::Parking, designated: Some(Designated::Motor), direction: Some(direction) }
}

fn turn() -> LaneSpec {
    LaneSpec::both(LaneType::SharedLeftTurn).designated(Designated::Motor)
}

#[test]
fn lane_spec_constructors_set_the_direction() {
    assert_eq!(LaneSpec::forward(LaneType::Parking).direction, Some(Direction::Forward));
    assert_eq!(LaneSpec::backward(LaneType::Parking).direction, Some(Direction::Backward));
    assert_eq!(LaneSpec::both(LaneType::Shoulder).direction, Some(Direction::Both));
    assert_eq!(LaneSpec::_none(LaneType::Travel).direction, None);
    assert_eq!(LaneSpec::forward(LaneType::Parking).lane_type, LaneType::Parking);
    assert_eq!(LaneSpec::forward(LaneType::Parking).designated, None);
    assert!(motor(Direction::Forward).is_designated(Designated::Motor));
    assert!(!parking(Direction::Forward).is_designated(Designated::Motor));
}

#[test]
fn lane_specs_of_a_residential_street() {
    let lanes = get_lane_specs_ltr(&store(&[("highway", "residential")]), &rht()).unwrap();
    assert_eq!(
        lanes,
        vec![shoulder(), motor(Direction::Backward), motor(Direction::Forward), shoulder()]
    );
    let lanes = get_lane_specs_ltr(
        &store(&[("highway", "residential")]),
        &Locale::new(DrivingSide::Left, false),
    )
    .unwrap();
    assert_eq!(lanes, vec![motor(Direction::Forward), motor(Direction::Backward)]);
}

#[test]
fn lane_specs_keep_buffers_as_lanes() {
    let lanes = get_lane_specs_ltr(
        &store(&[
            ("highway", "residential"),
            ("oneway", "yes"),
            ("cycleway:right", "track"),
            ("cycleway:right:separation:left", "kerb"),
            ("sidewalk", "right"),
            ("parking:lane:right", "parallel"),
        ]),
        &rht(),
    )
    .unwrap();
    assert_eq!(
        lanes,
        vec![
            motor(Direction::Forward),
            LaneSpec::forward(LaneType::Buffer(BufferType::Curb)),
            bike(Direction::Forward),
            parking(Direction::Forward),
            sidewalk(),
        ]
    );
}

#[test]
fn lane_specs_come_with_their_warnings() {
    let tags = store(&[("highway", "residential"), ("lanes", "1"), ("cycleway", "opposite_lane")]);
    let lanes = get_lane_specs_ltr_with_warnings(&tags, &rht()).unwrap();
    assert!(!lanes.warnings.is_empty());
    assert_eq!(lanes.warnings.0.len(), 2);
    assert_eq!(lanes.warnings.0[0].description, "lane counts do not add up");
    assert_eq!(lanes.warnings.0[0].tags, store(&[("lanes", "1")]));
    assert_eq!(lanes.warnings.0[1].description, "cycleway=opposite_lane deprecated");
    assert_eq!(
        lanes.warnings.to_string(),
        "Warning: lane counts do not add up\nWarning: cycleway=opposite_lane deprecated"
    );
    assert_eq!(lanes.lanes.len(), 5);
    let error = get_lane_specs_ltr(&tags, &rht()).unwrap_err();
    assert_eq!(error.to_string(), "2 warnings found");
    let fine = get_lane_specs_ltr_with_warnings(&store(&[("highway", "primary")]), &rht()).unwrap();
    assert!(fine.warnings.is_empty());
    assert_eq!(fine.warnings.to_string(), "");
}

#[test]
fn lane_spec_errors_say_what_stopped_the_inference() {
    let error = |pairs: &[(&str, &str)], locale: &Locale| {
        get_lane_specs_ltr_with_warnings(&store(pairs), locale).unwrap_err().to_string()
    };
    assert_eq!(error(&[("oneway", "reversible")], &rht()), "oneway=reversible");
    assert_eq!(
        error(&[("cycleway", "lane")], &Locale::new(DrivingSide::Left, true)),
        "LHT with cycleways not supported"
    );
    assert_eq!(
        error(&[("busway", "lane"), ("psv:lanes", "yes")], &rht()),
        "more than one bus lanes scheme used"
    );
    assert_eq!(
        error(&[("busway", "lane"), ("lanes:bus", "1")], &rht()),
        "more than one bus lanes scheme used"
    );
    assert_eq!(
        error(&[("busway:both", "lane"), ("oneway", "yes")], &rht()),
        "busway:both=lane for oneway roads"
    );
    assert_eq!(
        error(&[("lanes:forward", "0"), ("lanes:backward", "0"), ("foot", "no")], &rht()),
        "no lanes"
    );
    assert_eq!(LaneSpecError("text".to_string()).to_string(), "text");
}

#[test]
fn warnings_print_one_per_line() {
    let warning = |text: &str| LaneSpecWarning { description: text.to_string(), tags: Tags::new() };
    assert!(LaneSpecWarnings::default().is_empty());
    assert!(LaneSpecWarnings(vec![]).is_empty());
    assert!(!LaneSpecWarnings(vec![warning("a")]).is_empty());
    assert_eq!(LaneSpecWarnings(vec![warning("a")]).to_string(), "Warning: a");
    assert_eq!(
        LaneSpecWarnings(vec![warning("a"), warning(""), warning("c")]).to_string(),
        "Warning: a\nWarning: \nWarning: c"
    );
}

#[test]
fn tags_of_a_plain_road() {
    let lanes = [shoulder(), motor(Direction::Backward), motor(Direction::Forward), shoulder()];
    let tags = lanes_to_tags(&lanes, &rht()).unwrap();
    assert_eq!(tags, store(&[("highway", "yes"), ("lanes", "2")]));
}

#[test]
fn tags_of_a_oneway_with_everything() {
    let lanes = [
        sidewalk(),
        parking(Direction::Backward),
        bike(Direction::Both),
        motor(Direction::Forward),
        LaneSpec::forward(LaneType::Travel).designated(Designated::Bus),
        turn(),
        motor(Direction::Forward),
        bike(Direction::Forward),
        parking(Direction::Forward),
        sidewalk(),
    ];
    let tags = lanes_to_tags(&lanes, &rht()).unwrap();
    assert_eq!(
        tags,
        store(&[
            ("highway", "yes"),
            ("lanes", "4"),
            ("oneway", "yes"),
            ("sidewalk", "both"),
            ("parking:lane:both", "parallel"),
            ("cycleway:both", "lane"),
            ("cycleway:left:oneway", "no"),
            ("lanes:both_ways", "1"),
            ("turn:lanes:both_ways", "left"),
        ])
    );
}

#[test]
fn tags_name_the_side_of_what_lies_on_one_side() {
    let tags = lanes_to_tags(
        &[sidewalk(), bike(Direction::Backward), motor(Direction::Backward), motor(Direction::Forward), parking(Direction::Forward)],
        &rht(),
    )
    .unwrap();
    assert_eq!(
        tags,
        store(&[
            ("highway", "yes"),
            ("lanes", "2"),
            ("sidewalk", "left"),
            ("parking:lane:right", "parallel"),
            ("cycleway:left", "lane"),
        ])
    );
    let tags = lanes_to_tags(
        &[parking(Direction::Backward), motor(Direction::Backward), bike(Direction::Both), sidewalk()],
        &rht(),
    )
    .unwrap();
    assert_eq!(
        tags,
        store(&[
            ("highway", "yes"),
            ("lanes", "1"),
            ("sidewalk", "right"),
            ("parking:lane:left", "parallel"),
            ("cycleway:right", "lane"),
            ("cycleway:right:oneway", "no"),
        ])
    );
    let tags = lanes_to_tags(&[motor(Direction::Forward), bike(Direction::Forward), motor(Direction::Forward)], &rht()).unwrap();
    assert_eq!(tags, store(&[("highway", "yes"), ("lanes", "2"), ("oneway", "yes")]));
    let tags = lanes_to_tags(&[sidewalk()], &rht()).unwrap();
    assert_eq!(tags, store(&[("highway", "yes"), ("lanes", "0"), ("oneway", "yes"), ("sidewalk", "both")]));
}

#[test]
fn a_cycle_lane_on_each_side_comes_back_as_one_for_both_directions() {
    let first = get_lane_specs_ltr(
        &store(&[("highway", "residential"), ("cycleway:left", "lane"), ("cycleway:right", "lane")]),
        &rht(),
    )
    .unwrap();
    let tags = lanes_to_tags(&first, &rht()).unwrap();
    assert_eq!(tags.get("cycleway:both"), Some("lane"));
    let again = get_lane_specs_ltr(&tags, &rht()).unwrap();
    assert_eq!(first.len(), 6);
    assert_eq!(again.len(), 5);
}

#[test]
fn no_lanes_have_no_tags() {
    assert_eq!(lanes_to_tags(&[], &rht()).unwrap_err().to_string(), "no lanes");
}

#[test]
fn lanes_inferred_from_their_own_tags_are_the_same() {
    for pairs in [
        vec![],
        vec![("highway", "residential")],
        vec![("highway", "primary"), ("lanes", "4")],
        vec![("highway", "primary"), ("lanes", "3"), ("oneway", "yes")],
        vec![("highway", "secondary"), ("lanes", "5"), ("sidewalk", "both")],
        vec![("highway", "tertiary"), ("sidewalk", "left"), ("parking:lane:both", "parallel")],
        vec![("highway", "residential"), ("cycleway:right", "lane"), ("cycleway:right:oneway", "no")],
        vec![("highway", "residential"), ("cycleway:both", "lane")],
        vec![("highway", "primary"), ("lanes", "3"), ("lanes:both_ways", "1")],
    ] {
        let first = get_lane_specs_ltr(&store(&pairs), &rht()).unwrap();
        let again = get_lane_specs_ltr(&lanes_to_tags(&first, &rht()).unwrap(), &rht()).unwrap();
        assert_eq!(again, first, "{:?}", pairs);
    }
}

fn travel(direction: Option<Direction>, designated: Designated) -> Lane {
    Lane::Travel { direction, designated, width: None, max_speed: None, access: None }
}

fn run(markings: &[(Style, Option<Color>)]) -> Markings {
    Markings::new(markings.iter().map(|(style, color)| Marking::new(*style, *color)).collect())
}

#[test]
fn separators_depend_on_both_neighbours() {
    let forward = travel(Some(Direction::Forward), Designated::Motor);
    let backward = travel(Some(Direction::Backward), Designated::Motor);
    let bus = travel(Some(Direction::Forward), Designated::Bus);
    let turn = travel(Some(Direction::Both), Designated::Motor);
    let cycle = travel(Some(Direction::Both), Designated::Bicycle);
    let foot = travel(None, Designated::Foot);
    let parking = Lane::Parking { direction: Direction::Forward, designated: Designated::Motor, width: None };
    let shoulder = Lane::Shoulder { width: None };
    let white = Some(Color::White);
    let yellow = Some(Color::Yellow);
    assert_eq!(separator_between(&forward, &forward), run(&[(Style::DashedLine, white)]));
    assert_eq!(separator_between(&forward, &bus), run(&[(Style::DashedLine, white)]));
    assert_eq!(separator_between(&backward, &forward), run(&[(Style::SolidLine, yellow), (Style::SolidLine, yellow)]));
    assert_eq!(separator_between(&backward, &turn), run(&[(Style::SolidLine, yellow), (Style::BrokenLine, yellow)]));
    assert_eq!(separator_between(&turn, &forward), run(&[(Style::BrokenLine, yellow), (Style::SolidLine, yellow)]));
    assert_eq!(separator_between(&forward, &parking), run(&[(Style::SolidLine, white)]));
    assert_eq!(separator_between(&shoulder, &backward), run(&[(Style::SolidLine, white)]));
    assert_eq!(separator_between(&cycle, &forward), run(&[(Style::SolidLine, white)]));
    assert_eq!(separator_between(&forward, &cycle), run(&[(Style::SolidLine, white)]));
    assert_eq!(separator_between(&cycle, &turn), run(&[(Style::SolidLine, white)]));
    assert_eq!(separator_between(&forward, &foot), run(&[(Style::KerbUp, None)]));
    assert_eq!(separator_between(&foot, &backward), run(&[(Style::KerbUp, None)]));
    assert_eq!(separator_between(&parking, &foot), run(&[(Style::KerbUp, None)]));
    assert_eq!(separator_between(&foot, &foot), run(&[(Style::SolidLine, white)]));
}

#[test]
fn separators_and_lanes_take_turns() {
    let forward = travel(Some(Direction::Forward), Designated::Motor);
    let cycle = travel(Some(Direction::Forward), Designated::Bicycle);
    let kerb = Lane::Separator { markings: run(&[(Style::KerbUp, None), (Style::KerbDown, None)]) };
    let posts = Lane::Separator { markings: run(&[(Style::DottedLine, Some(Color::White))]) };
    let solid = Lane::Separator { markings: run(&[(Style::SolidLine, Some(Color::White))]) };
    let dashed = Lane::Separator { markings: run(&[(Style::DashedLine, Some(Color::White))]) };
    let lanes = vec![forward.clone(), forward.clone(), kerb.clone(), posts.clone(), cycle.clone(), cycle.clone(), posts.clone()];
    let merged = Lane::Separator {
        markings: run(&[(Style::KerbUp, None), (Style::KerbDown, None), (Style::DottedLine, Some(Color::White))]),
    };
    assert_eq!(
        insert_separators(&lanes),
        vec![forward.clone(), dashed, forward.clone(), merged, cycle.clone(), solid, cycle.clone(), posts.clone()]
    );
    assert_eq!(remove_separators(&lanes), vec![forward.clone(), forward.clone(), cycle.clone(), cycle.clone()]);
    assert_eq!(insert_separators(&vec![]), vec![]);
    assert_eq!(insert_separators(&vec![forward.clone()]), vec![forward.clone()]);
    assert_eq!(insert_separators(&vec![posts.clone()]), vec![posts.clone()]);
    assert_eq!(remove_separators(&vec![posts.clone()]), vec![]);
}

#[test]
fn buffers_stand_as_separators_in_the_road() {
    let tags = store(&[
        ("highway", "residential"),
        ("oneway", "yes"),
        ("cycleway:right", "track"),
        ("cycleway:right:separation:left", "kerb"),
    ]);
    let road = tags_to_lanes(&tags, &rht(), &Config::default()).unwrap().road;
    assert_eq!(road.lanes.len(), 5);
    assert_eq!(road.lanes[1], Lane::Separator { markings: run(&[(Style::KerbUp, None)]) });
    assert_eq!(road.lanes[3], Lane::Separator { markings: run(&[(Style::SolidLine, Some(Color::White))]) });
    let road = tags_to_lanes(&tags, &rht(), &Config::new(false, false)).unwrap().road;
    assert_eq!(road.lanes.len(), 3);
    assert!(road.lanes.iter().all(|lane| !matches!(lane, Lane::Separator { .. })));
}
