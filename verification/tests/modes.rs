use osm2lanes::transform::assemble::assemble_ltr;
use osm2lanes::transform::driving::driving_lane_directions;
use osm2lanes::transform::modes::bicycle::{bicycle, osm_separation_type};
use osm2lanes::transform::modes::bus::{bus, bus_lanes, busway, lanes_bus};
use osm2lanes::transform::modes::foot_shoulder::foot_and_shoulder;
use osm2lanes::transform::modes::non_motorized::non_motorized;
use osm2lanes::transform::modes::parking::parking;
use osm2lanes::{
    unsupported, BufferType, Designated, Direction, DrivingSide, HighwayType, Infer, LaneBuilder,
    LaneType, Locale, Metre, MsgKind, Oneway, RoadBuilder, RoadError, RoadWarnings, Tags,
};

fn store(pairs: &[(&str, &str)]) -> Tags {
    let mut tags = Tags::new();
    for (key, value) in pairs {
        tags.insert(key, value);
    }
    tags
}

fn rht() -> Locale {
    Locale::new(DrivingSide::Right, true)
}

fn lht() -> Locale {
    Locale::new(DrivingSide::Left, true)
}

fn highway() -> HighwayType {
    HighwayType::Residential
}

fn driving(direction: Direction) -> LaneBuilder {
    LaneBuilder::new_driving(direction, false, false, &rht(), highway())
}

fn bike(direction: Direction) -> LaneBuilder {
    LaneBuilder::new_travel(direction, Designated::Bicycle, &rht(), highway())
}

fn road(forward: usize, backward: usize, oneway: Oneway) -> RoadBuilder {
    RoadBuilder {
        forward_lanes: vec![driving(Direction::Forward); forward],
        backward_lanes: vec![driving(Direction::Backward); backward],
        highway: highway(),
        oneway,
    }
}

fn is_bus(lane: &LaneBuilder) -> bool {
    lane.designated == Infer::Direct(Designated::Bus)
}

fn unsupported_text(result: Result<(), RoadError>) -> String {
    match result {
        Err(RoadError::Msg(msg)) if msg.kind == MsgKind::Unsupported => msg.description,
        other => panic!("unexpected {:?}", other),
    }
}

fn ambiguous_text(result: Result<(), RoadError>) -> String {
    match result {
        Err(RoadError::Msg(msg)) if msg.kind == MsgKind::Ambiguous => msg.description,
        other => panic!("unexpected {:?}", other),
    }
}

#[test]
fn lane_counts_follow_the_tags() {
    let count = |pairs: &[(&str, &str)], oneway: bool| {
        let mut warnings = RoadWarnings::new();
        let counts = driving_lane_directions(&store(pairs), &rht(), oneway, &mut warnings);
        (counts.0, counts.1, warnings.len())
    };
    assert_eq!(count(&[], false), (1, 1, 0));
    assert_eq!(count(&[], true), (1, 0, 0));
    assert_eq!(count(&[("lanes", "4")], false), (2, 2, 0));
    assert_eq!(count(&[("lanes", "5")], false), (3, 2, 0));
    assert_eq!(count(&[("lanes", "4")], true), (4, 0, 0));
    assert_eq!(count(&[("lanes", "1")], false), (1, 1, 1));
    assert_eq!(count(&[("lanes", "0")], false), (0, 1, 1));
    assert_eq!(count(&[("lanes", "3"), ("lanes:both_ways", "1")], false), (1, 1, 0));
    assert_eq!(count(&[("lanes", "2"), ("lanes:both_ways", "1")], false), (0, 1, 0));
    assert_eq!(count(&[("lanes", "1"), ("lanes:both_ways", "2")], true), (0, 0, 1));
    assert_eq!(count(&[("lanes:forward", "3"), ("lanes:backward", "1")], false), (3, 1, 0));
    assert_eq!(count(&[("lanes", "6"), ("lanes:forward", "2")], false), (2, 4, 0));
    assert_eq!(count(&[("lanes", "2"), ("lanes:forward", "5")], false), (5, 1, 1));
    assert_eq!(count(&[("lanes", "2"), ("lanes:forward", "5")], true), (5, 0, 1));
    assert_eq!(count(&[("lanes", "two")], false), (1, 1, 0));
    assert_eq!(count(&[("lanes", "2;3")], true), (1, 0, 0));
}

#[test]
fn the_warning_about_lane_counts_names_the_counting_tags() {
    let mut warnings = RoadWarnings::new();
    let tags = store(&[("lanes", "1"), ("highway", "primary"), ("lanes:both_ways", "x")]);
    driving_lane_directions(&tags, &rht(), false, &mut warnings);
    let warning = warnings.get(0).unwrap();
    assert_eq!(warning.kind, MsgKind::Ambiguous);
    assert_eq!(warning.description, "lane counts do not add up");
    assert_eq!(warning.tags, store(&[("lanes", "1"), ("lanes:both_ways", "x")]));
}

#[test]
fn the_road_starts_with_its_class_and_direction() {
    let built = RoadBuilder::from(&store(&[("highway", "primary"), ("oneway", "yes")]), &rht());
    assert_eq!(built.highway, HighwayType::Primary);
    assert_eq!(built.oneway, Oneway::Yes);
    assert!(built.forward_lanes.is_empty() && built.backward_lanes.is_empty());
    assert_eq!(RoadBuilder::from(&store(&[("junction", "roundabout")]), &rht()).oneway, Oneway::Yes);
    assert_eq!(RoadBuilder::from(&store(&[("oneway", "reversible")]), &rht()).oneway, Oneway::Yes);
    assert_eq!(RoadBuilder::from(&store(&[("oneway", "no")]), &rht()).oneway, Oneway::No);
    assert_eq!(RoadBuilder::from(&Tags::new(), &rht()).highway, HighwayType::Other);
}

#[test]
fn driving_lanes_are_for_buses_or_closed_where_the_tags_say_so() {
    let build = |pairs: &[(&str, &str)]| {
        let tags = store(pairs);
        let mut built = RoadBuilder::from(&tags, &rht());
        let mut warnings = RoadWarnings::new();
        let construction = built.add_driving_lanes(&tags, &rht(), &mut warnings);
        (built, construction)
    };
    let (built, construction) = build(&[("access", "no"), ("bus", "yes")]);
    assert!(!construction);
    assert!(built.forward_lanes.iter().chain(built.backward_lanes.iter()).all(is_bus));
    let (built, _) = build(&[("motor_vehicle:conditional", "no @ (06:00-19:00)"), ("bus", "yes")]);
    assert!(is_bus(&built.forward_lanes[0]));
    let (built, _) = build(&[("motor_vehicle:conditional", "yes @ (06:00-19:00)"), ("bus", "yes")]);
    assert!(!is_bus(&built.forward_lanes[0]));
    let (built, construction) = build(&[("access", "no"), ("highway", "construction")]);
    assert!(construction);
    assert_eq!(built.forward_lanes[0].lane_type, LaneType::Construction);
    let (built, construction) = build(&[("highway", "construction")]);
    assert!(!construction);
    assert_eq!(built.forward_lanes[0].lane_type, LaneType::Travel);
    let (built, construction) = build(&[("access", "no"), ("highway", "construction"), ("psv", "yes")]);
    assert!(!construction);
    assert!(is_bus(&built.forward_lanes[0]));
    let (built, _) = build(&[("centre_turn_lane", "yes")]);
    assert_eq!(built.forward_lanes.len(), 2);
    assert_eq!(built.forward_lanes[0], LaneBuilder::new_shared_left_turn(&rht(), HighwayType::Other));
    assert_eq!(built.forward_lanes[0].direction, Infer::Direct(Direction::Both));
}

#[test]
fn access_tags_give_a_warning_that_names_them() {
    let mut warnings = RoadWarnings::new();
    let tags = store(&[("highway", "primary"), ("bicycle", "no"), ("hgv", "designated")]);
    assert!(unsupported(&tags, &rht(), &mut warnings).is_ok());
    assert_eq!(warnings.len(), 1);
    let warning = warnings.get(0).unwrap();
    assert_eq!(warning.kind, MsgKind::Unimplemented);
    assert_eq!(warning.description, "access");
    assert_eq!(warning.tags, store(&[("bicycle", "no"), ("hgv", "designated")]));
    let mut warnings = RoadWarnings::new();
    assert!(unsupported(&store(&[("highway", "primary")]), &rht(), &mut warnings).is_ok());
    assert!(warnings.is_empty());
    let mut warnings = RoadWarnings::new();
    let tags = store(&[("tank", "yes"), ("oneway", "reversible")]);
    assert!(unsupported(&tags, &rht(), &mut warnings).is_err());
    assert_eq!(warnings.len(), 1);
}

#[test]
fn busway_lane_marks_the_outermost_lanes() {
    let mut built = road(2, 2, Oneway::No);
    let mut warnings = RoadWarnings::new();
    assert!(busway(&store(&[("busway", "lane")]), &rht(), &mut built, &mut warnings).is_ok());
    assert!(!is_bus(&built.forward_lanes[0]) && is_bus(&built.forward_lanes[1]));
    assert!(!is_bus(&built.backward_lanes[0]) && is_bus(&built.backward_lanes[1]));
    let mut built = road(2, 2, Oneway::Yes);
    let tags = store(&[("busway", "lane"), ("oneway", "yes")]);
    assert!(busway(&tags, &rht(), &mut built, &mut warnings).is_ok());
    assert!(is_bus(&built.forward_lanes[1]));
    assert!(!is_bus(&built.backward_lanes[1]));
    let mut built = road(2, 2, Oneway::No);
    assert!(busway(&store(&[("busway", "opposite_lane")]), &rht(), &mut built, &mut warnings).is_ok());
    assert!(!is_bus(&built.forward_lanes[1]) && is_bus(&built.backward_lanes[1]));
    assert!(warnings.is_empty());
}

#[test]
fn busway_with_a_side_depends_on_the_driving_side() {
    let mut warnings = RoadWarnings::new();
    let mut built = road(2, 1, Oneway::No);
    assert!(busway(&store(&[("busway:right", "lane")]), &rht(), &mut built, &mut warnings).is_ok());
    assert!(is_bus(&built.forward_lanes[1]) && !is_bus(&built.backward_lanes[0]));
    let mut built = road(2, 1, Oneway::No);
    assert!(busway(&store(&[("busway:left", "lane")]), &lht(), &mut built, &mut warnings).is_ok());
    assert!(is_bus(&built.forward_lanes[1]) && !is_bus(&built.forward_lanes[0]));
    let mut built = road(2, 0, Oneway::Yes);
    let tags = store(&[("busway:left", "lane"), ("oneway", "yes")]);
    assert!(busway(&tags, &rht(), &mut built, &mut warnings).is_ok());
    assert!(is_bus(&built.forward_lanes[0]) && !is_bus(&built.forward_lanes[1]));
    let mut built = road(2, 1, Oneway::No);
    assert_eq!(
        ambiguous_text(busway(&store(&[("busway:left", "lane")]), &rht(), &mut built, &mut warnings)),
        "busway:BACKWARD=lane for bidirectional roads"
    );
    let mut built = road(2, 1, Oneway::No);
    let both = store(&[("busway:both", "lane")]);
    assert!(busway(&both, &rht(), &mut built, &mut warnings).is_ok());
    assert!(is_bus(&built.forward_lanes[1]) && is_bus(&built.backward_lanes[0]));
    let mut built = road(2, 1, Oneway::Yes);
    let tags = store(&[("busway:both", "lane"), ("oneway:bus", "yes")]);
    assert_eq!(
        ambiguous_text(busway(&tags, &rht(), &mut built, &mut warnings)),
        "busway:both=lane for oneway roads"
    );
    assert_eq!(built, road(2, 1, Oneway::Yes));
    for (forward, backward) in [(2, 0), (0, 0), (0, 2)] {
        let mut built = road(forward, backward, Oneway::Yes);
        let tags = store(&[("busway", "lane"), ("busway:both", "lane"), ("oneway", "yes")]);
        assert_eq!(
            ambiguous_text(busway(&tags, &rht(), &mut built, &mut warnings)),
            "busway:both=lane for oneway roads"
        );
        assert_eq!(built, road(forward, backward, Oneway::Yes));
    }
    let mut built = road(2, 0, Oneway::No);
    assert_eq!(
        unsupported_text(busway(&store(&[("busway:both", "lane")]), &rht(), &mut built, &mut warnings)),
        "no backward lanes for busway"
    );
    assert!(warnings.is_empty());
}

#[test]
fn busway_needs_lanes_to_mark() {
    let mut warnings = RoadWarnings::new();
    let mut built = road(0, 1, Oneway::No);
    assert_eq!(
        unsupported_text(busway(&store(&[("busway", "lane")]), &rht(), &mut built, &mut warnings)),
        "no forward lanes for busway"
    );
    let mut built = road(1, 0, Oneway::No);
    assert_eq!(
        unsupported_text(busway(&store(&[("busway", "lane")]), &rht(), &mut built, &mut warnings)),
        "no backward lanes for busway"
    );
    assert!(is_bus(&built.forward_lanes[0]));
}

#[test]
fn bus_lanes_are_read_lane_by_lane() {
    let mut warnings = RoadWarnings::new();
    let mut built = road(3, 2, Oneway::No);
    let tags = store(&[("bus:lanes:forward", "yes|no|designated"), ("psv:lanes:backward", "designated|")]);
    assert!(bus_lanes(&tags, &rht(), &mut built, &mut warnings).is_ok());
    let marks = |lanes: &Vec<LaneBuilder>| lanes.iter().map(is_bus).collect::<Vec<_>>();
    assert_eq!(marks(&built.forward_lanes), vec![false, false, true]);
    assert_eq!(marks(&built.backward_lanes), vec![true, false]);
    let mut built = road(2, 2, Oneway::No);
    assert!(bus_lanes(&store(&[("bus:lanes", "designated|yes")]), &rht(), &mut built, &mut warnings).is_ok());
    assert_eq!(marks(&built.forward_lanes), vec![false, false]);
    let mut built = road(2, 0, Oneway::Yes);
    assert!(bus_lanes(&store(&[("psv:lanes", "designated|yes")]), &rht(), &mut built, &mut warnings).is_ok());
    assert_eq!(marks(&built.forward_lanes), vec![true, false]);
    let mut built = road(2, 0, Oneway::Yes);
    built.forward_lanes.insert(0, LaneBuilder::new_shared_left_turn(&rht(), highway()));
    assert!(bus_lanes(&store(&[("bus:lanes", "yes|designated")]), &rht(), &mut built, &mut warnings).is_ok());
    assert_eq!(marks(&built.forward_lanes), vec![false, false, true]);
    let mut built = road(0, 0, Oneway::Yes);
    assert!(bus_lanes(&store(&[("bus:lanes", "designated")]), &rht(), &mut built, &mut warnings).is_ok());
    assert!(built.forward_lanes.is_empty());
    assert!(warnings.is_empty());
}

#[test]
fn one_scheme_of_bus_tags_at_a_time() {
    let mut warnings = RoadWarnings::new();
    let mut built = road(1, 1, Oneway::No);
    let tags = store(&[("busway", "lane"), ("bus:lanes:forward", "designated")]);
    assert_eq!(
        unsupported_text(bus(&tags, &rht(), &mut built, &mut warnings)),
        "more than one bus lanes scheme used"
    );
    assert_eq!(built, road(1, 1, Oneway::No));
    let tags = store(&[("lanes:psv", "1"), ("psv:lanes", "designated")]);
    assert!(bus(&tags, &rht(), &mut built, &mut warnings).is_err());
    for pairs in [
        [("busway:right", "lane"), ("lanes:bus:forward", "1")],
        [("busway", "no"), ("lanes:psv", "1")],
        [("busway:left", "lane"), ("psv:lanes:backward", "designated")],
        [("lanes:bus", "2"), ("bus:lanes", "designated|designated")],
    ] {
        let mut built = road(1, 1, Oneway::No);
        let mut warnings = RoadWarnings::new();
        assert_eq!(
            unsupported_text(bus(&store(&pairs), &rht(), &mut built, &mut warnings)),
            "more than one bus lanes scheme used"
        );
        assert_eq!(built, road(1, 1, Oneway::No));
        assert!(warnings.is_empty());
    }
    let tags = store(&[("busway:right", "lane"), ("lanes", "2")]);
    assert!(bus(&tags, &rht(), &mut built, &mut warnings).is_ok());
    assert!(is_bus(&built.forward_lanes[0]));
    let mut built = road(1, 1, Oneway::No);
    assert!(bus(&store(&[("highway", "primary")]), &rht(), &mut built, &mut warnings).is_ok());
    assert_eq!(built, road(1, 1, Oneway::No));
    assert!(bus(&store(&[("bus:lanes:backward", "designated")]), &rht(), &mut built, &mut warnings).is_ok());
    assert!(is_bus(&built.backward_lanes[0]));
    assert!(warnings.is_empty());
}

#[test]
fn counted_bus_lanes_are_not_read_yet() {
    let mut warnings = RoadWarnings::new();
    let mut built = road(1, 1, Oneway::No);
    let tags = store(&[("lanes:bus:forward", "1"), ("lanes:psv", "2"), ("lanes", "3")]);
    assert!(bus(&tags, &rht(), &mut built, &mut warnings).is_ok());
    assert_eq!(built, road(1, 1, Oneway::No));
    assert_eq!(warnings.len(), 1);
    let warning = warnings.get(0).unwrap();
    assert_eq!(warning.kind, MsgKind::Unimplemented);
    assert_eq!(warning.tags, store(&[("lanes:bus:forward", "1"), ("lanes:psv", "2")]));
    let mut warnings = RoadWarnings::new();
    assert!(lanes_bus(&tags, &rht(), &mut built, &mut warnings).is_ok());
    assert_eq!(warnings.len(), 1);
}

#[test]
fn set_bus_states_the_designation_directly() {
    let mut lane = driving(Direction::Forward);
    assert_eq!(lane.designated, Infer::Default(Designated::Motor));
    lane.set_bus(&rht());
    assert_eq!(lane.designated, Infer::Direct(Designated::Bus));
    assert_eq!(lane.direction, Infer::Default(Direction::Forward));
    assert_eq!(lane.width, Infer::Default(Metre::from_millimetres(3500)));
    assert!(lane.is_designated(Designated::Bus));
    assert!(!lane.is_designated(Designated::Motor));
}

fn cycled(pairs: &[(&str, &str)], locale: &Locale, oneway: Oneway) -> (RoadBuilder, RoadWarnings, Result<(), RoadError>) {
    let mut built = road(1, if oneway == Oneway::Yes { 0 } else { 1 }, oneway);
    let mut warnings = RoadWarnings::new();
    let result = bicycle(&store(pairs), locale, &mut built, &mut warnings);
    (built, warnings, result)
}

#[test]
fn cycleway_without_a_side_adds_a_lane_each_way() {
    let (built, warnings, result) = cycled(&[("cycleway", "lane")], &rht(), Oneway::No);
    assert!(result.is_ok() && warnings.is_empty());
    assert_eq!(built.forward_lanes, vec![driving(Direction::Forward), bike(Direction::Forward)]);
    assert_eq!(built.backward_lanes, vec![driving(Direction::Backward), bike(Direction::Backward)]);
    let (built, warnings, result) = cycled(&[("cycleway", "track"), ("oneway", "yes")], &rht(), Oneway::Yes);
    assert!(result.is_ok() && warnings.is_empty());
    assert_eq!(built.forward_lanes, vec![driving(Direction::Forward), bike(Direction::Forward)]);
    assert!(built.backward_lanes.is_empty());
    let mut built = road(1, 1, Oneway::Yes);
    let mut warnings = RoadWarnings::new();
    let tags = store(&[("cycleway", "track"), ("oneway", "yes"), ("lanes:backward", "1")]);
    assert!(bicycle(&tags, &rht(), &mut built, &mut warnings).is_ok());
    assert_eq!(built.backward_lanes, vec![driving(Direction::Backward)]);
    assert_eq!(warnings.len(), 1);
    assert_eq!(warnings.get(0).unwrap().description, "oneway has backwards lanes when adding cycleways");
    assert_eq!(warnings.get(0).unwrap().tags, store(&[("cycleway", "track"), ("oneway", "yes")]));
}

#[test]
fn cycleway_without_a_side_stands_alone() {
    for side in ["cycleway:both", "cycleway:left", "cycleway:right"] {
        let (built, _, result) = cycled(&[("cycleway", "lane"), (side, "track")], &rht(), Oneway::No);
        assert_eq!(unsupported_text(result), "cycleway=* not supported with any cycleway:* values");
        assert_eq!(built, road(1, 1, Oneway::No));
    }
}

#[test]
fn cycleway_both_adds_one_lane_for_both_directions() {
    let (built, _, result) = cycled(&[("cycleway:both", "lane")], &rht(), Oneway::No);
    assert!(result.is_ok());
    assert_eq!(built.forward_lanes, vec![driving(Direction::Forward), bike(Direction::Both)]);
    assert_eq!(built.backward_lanes, vec![driving(Direction::Backward)]);
}

#[test]
fn cycleways_with_a_side() {
    let (built, _, result) = cycled(&[("cycleway:right", "lane")], &rht(), Oneway::No);
    assert!(result.is_ok());
    assert_eq!(built.forward_lanes, vec![driving(Direction::Forward), bike(Direction::Forward)]);
    let (built, _, _) = cycled(&[("cycleway:right", "lane"), ("oneway:bicycle", "no")], &rht(), Oneway::No);
    assert_eq!(built.forward_lanes[1], bike(Direction::Both));
    let (built, _, _) = cycled(&[("cycleway:left", "track")], &rht(), Oneway::No);
    assert_eq!(built.backward_lanes, vec![driving(Direction::Backward), bike(Direction::Backward)]);
    let (built, _, _) = cycled(&[("cycleway:left", "track"), ("cycleway:left:oneway", "no")], &rht(), Oneway::No);
    assert_eq!(built.backward_lanes, vec![driving(Direction::Backward), bike(Direction::Both)]);
    let (built, _, _) = cycled(&[("cycleway:left", "track"), ("cycleway:right:oneway", "no")], &rht(), Oneway::No);
    assert_eq!(built.backward_lanes[1], bike(Direction::Backward));
    let (built, _, result) = cycled(&[("cycleway:left", "lane")], &rht(), Oneway::Yes);
    assert!(result.is_ok());
    assert_eq!(built.forward_lanes, vec![bike(Direction::Forward), driving(Direction::Forward)]);
    assert!(built.backward_lanes.is_empty());
}

#[test]
fn deprecated_cycleways_warn() {
    let (built, warnings, result) = cycled(&[("cycleway", "opposite_lane")], &rht(), Oneway::Yes);
    assert!(result.is_ok());
    assert_eq!(built.backward_lanes, vec![bike(Direction::Backward)]);
    assert_eq!(warnings.len(), 1);
    assert_eq!(warnings.get(0).unwrap().kind, MsgKind::Deprecated);
    assert_eq!(warnings.get(0).unwrap().description, "cycleway=opposite_lane deprecated");
    assert_eq!(warnings.get(0).unwrap().tags, store(&[("cycleway", "opposite_lane")]));
    let (built, warnings, result) = cycled(&[("cycleway:right", "opposite_track")], &rht(), Oneway::Yes);
    assert!(result.is_ok());
    assert_eq!(built.forward_lanes, vec![driving(Direction::Forward), bike(Direction::Backward)]);
    assert_eq!(warnings.get(0).unwrap().description, "cycleway:FORWARD=opposite_lane deprecated");
    assert!(warnings.get(0).unwrap().tags.is_empty());
    let (_, _, result) = cycled(&[("cycleway:left", "opposite_lane")], &rht(), Oneway::Yes);
    assert_eq!(unsupported_text(result), "cycleway:BACKWARD=opposite_lane unsupported");
}

#[test]
fn cycleways_under_left_hand_traffic_are_refused() {
    for pairs in [[("cycleway", "lane")], [("cycleway:both", "track")], [("cycleway:left", "lane")], [("cycleway:right", "lane")]] {
        let (_, _, result) = cycled(&pairs, &lht(), Oneway::No);
        assert_eq!(unsupported_text(result), "LHT with cycleways not supported");
    }
    let (built, _, result) = cycled(&[("cycleway", "no")], &lht(), Oneway::No);
    assert!(result.is_ok());
    assert_eq!(built, road(1, 1, Oneway::No));
}

#[test]
fn separation_puts_buffers_beside_cycle_lanes() {
    let buffer = |kind, direction| LaneBuilder::new_buffer(kind, direction);
    let (built, _, _) = cycled(
        &[("cycleway:right", "lane"), ("cycleway:right:separation:left", "bollard")],
        &rht(),
        Oneway::No,
    );
    assert_eq!(
        built.forward_lanes,
        vec![driving(Direction::Forward), buffer(BufferType::FlexPosts, Direction::Forward), bike(Direction::Forward)]
    );
    let (built, _, _) = cycled(
        &[("cycleway:left", "lane"), ("cycleway:left:separation:left", "kerb")],
        &rht(),
        Oneway::No,
    );
    assert_eq!(
        built.backward_lanes,
        vec![driving(Direction::Backward), buffer(BufferType::Curb, Direction::Backward), bike(Direction::Backward)]
    );
    let (built, _, _) = cycled(
        &[("cycleway:left", "lane"), ("cycleway:left:separation:right", "planter")],
        &rht(),
        Oneway::Yes,
    );
    assert_eq!(
        built.forward_lanes,
        vec![bike(Direction::Forward), buffer(BufferType::Planters, Direction::Forward), driving(Direction::Forward)]
    );
    let (built, _, _) = cycled(&[("cycleway:right:separation:left", "bollard")], &rht(), Oneway::No);
    assert_eq!(built, road(1, 1, Oneway::No));
    let (built, _, _) = cycled(
        &[("cycleway:right", "lane"), ("cycleway:right:separation:left", "parking_lane")],
        &rht(),
        Oneway::No,
    );
    assert_eq!(built.forward_lanes.len(), 2);
}

#[test]
fn separation_values_name_buffers() {
    assert_eq!(osm_separation_type("bollard"), Some(BufferType::FlexPosts));
    assert_eq!(osm_separation_type("vertical_panel"), Some(BufferType::FlexPosts));
    assert_eq!(osm_separation_type("kerb"), Some(BufferType::Curb));
    assert_eq!(osm_separation_type("separation_kerb"), Some(BufferType::Curb));
    assert_eq!(osm_separation_type("grass_verge"), Some(BufferType::Planters));
    assert_eq!(osm_separation_type("planter"), Some(BufferType::Planters));
    assert_eq!(osm_separation_type("tree_row"), Some(BufferType::Planters));
    assert_eq!(osm_separation_type("guard_rail"), Some(BufferType::JerseyBarrier));
    assert_eq!(osm_separation_type("jersey_barrier"), Some(BufferType::JerseyBarrier));
    assert_eq!(osm_separation_type("railing"), Some(BufferType::JerseyBarrier));
    assert_eq!(osm_separation_type("barred_area"), Some(BufferType::Stripes));
    assert_eq!(osm_separation_type("dashed_line"), Some(BufferType::Stripes));
    assert_eq!(osm_separation_type("solid_line"), Some(BufferType::Stripes));
    assert_eq!(osm_separation_type("parking_lane"), None);
    assert_eq!(osm_separation_type("hedge"), None);
    assert_eq!(osm_separation_type(""), None);
}

#[test]
fn parking_lanes_go_to_the_outer_edge() {
    let parked = |pairs: &[(&str, &str)]| {
        let mut built = road(1, 1, Oneway::No);
        parking(&store(pairs), &rht(), &mut built);
        (built.forward_lanes.len() == 2, built.backward_lanes.len() == 2)
    };
    assert_eq!(parked(&[("parking:lane:right", "parallel")]), (true, false));
    assert_eq!(parked(&[("parking:lane:left", "diagonal")]), (false, true));
    assert_eq!(parked(&[("parking:lane:both", "perpendicular")]), (true, true));
    assert_eq!(parked(&[("parking:lane:both", "no_parking")]), (false, false));
    assert_eq!(parked(&[("parking:lane:left", "parallel"), ("parking:lane:right", "no")]), (false, true));
    let mut built = road(1, 1, Oneway::No);
    parking(&store(&[("parking:lane:both", "parallel")]), &rht(), &mut built);
    assert_eq!(built.forward_lanes[1], LaneBuilder::new_parking(Direction::Forward, &rht(), highway()));
    assert_eq!(built.backward_lanes[1], LaneBuilder::new_parking(Direction::Backward, &rht(), highway()));
    assert_eq!(built.forward_lanes[1].lane_type, LaneType::Parking);
    assert_eq!(built.forward_lanes[1].designated, Infer::Default(Designated::Motor));
}

fn walked(pairs: &[(&str, &str)], locale: &Locale, backward: usize) -> (Vec<LaneBuilder>, Vec<LaneBuilder>) {
    let mut built = road(1, backward, Oneway::No);
    foot_and_shoulder(&store(pairs), locale, &mut built);
    (built.forward_lanes[1..].to_vec(), built.backward_lanes[backward..].to_vec())
}

#[test]
fn sidewalks_follow_the_sidewalk_tag() {
    let sidewalk = LaneBuilder::new_sidewalk(&rht(), highway());
    let shoulder = LaneBuilder::new_shoulder();
    assert_eq!(walked(&[("sidewalk", "both")], &rht(), 1), (vec![sidewalk], vec![sidewalk]));
    assert_eq!(walked(&[("sidewalk", "right")], &rht(), 1), (vec![sidewalk], vec![shoulder]));
    assert_eq!(walked(&[("sidewalk", "left")], &rht(), 1), (vec![shoulder], vec![sidewalk]));
    assert_eq!(walked(&[("sidewalk", "right")], &lht(), 1), (vec![shoulder], vec![sidewalk]));
    assert_eq!(walked(&[("sidewalk", "left")], &lht(), 1), (vec![sidewalk], vec![shoulder]));
    assert_eq!(walked(&[("sidewalk", "separate")], &rht(), 1), (vec![sidewalk], vec![sidewalk]));
    assert_eq!(walked(&[("sidewalk", "separate")], &rht(), 0), (vec![sidewalk], vec![shoulder]));
    assert_eq!(walked(&[("sidewalk", "none")], &rht(), 1), (vec![shoulder], vec![shoulder]));
    let no_inference = Locale::new(DrivingSide::Right, false);
    assert_eq!(walked(&[("sidewalk", "separate")], &no_inference, 1), (vec![], vec![]));
    assert_eq!(walked(&[("sidewalk", "right")], &no_inference, 1), (vec![sidewalk], vec![]));
    assert_eq!(walked(&[("highway", "living_street")], &no_inference, 1), (vec![shoulder], vec![shoulder]));
    assert_eq!(sidewalk.direction, Infer::Absent);
    assert_eq!(sidewalk.designated, Infer::Direct(Designated::Foot));
}

#[test]
fn shoulders_are_ruled_out_by_some_tags() {
    for pairs in [
        [("highway", "motorway")],
        [("highway", "motorway_link")],
        [("highway", "construction")],
        [("foot", "no")],
        [("access", "no")],
        [("motorroad", "yes")],
    ] {
        assert_eq!(walked(&pairs, &rht(), 1), (vec![], vec![]));
    }
    assert_eq!(walked(&[("oneway", "yes")], &rht(), 0), (vec![LaneBuilder::new_shoulder()], vec![]));
    assert_eq!(
        walked(&[("junction", "roundabout")], &rht(), 0),
        (vec![LaneBuilder::new_shoulder()], vec![LaneBuilder::new_shoulder()])
    );
}

fn paths(pairs: &[(&str, &str)]) -> (bool, RoadBuilder, RoadWarnings) {
    let tags = store(pairs);
    let mut built = RoadBuilder::from(&tags, &rht());
    let mut warnings = RoadWarnings::new();
    let handled = non_motorized(&tags, &rht(), &mut built, &mut warnings);
    (handled, built, warnings)
}

#[test]
fn ways_without_motor_traffic() {
    let (handled, built, warnings) = paths(&[("highway", "residential")]);
    assert!(!handled && warnings.is_empty());
    assert!(built.forward_lanes.is_empty() && built.backward_lanes.is_empty());
    let (handled, built, warnings) = paths(&[("highway", "steps")]);
    assert!(handled);
    assert_eq!(built.forward_lanes, vec![LaneBuilder::new_sidewalk(&rht(), HighwayType::Steps)]);
    assert!(built.backward_lanes.is_empty());
    assert_eq!(warnings.len(), 1);
    assert_eq!(warnings.get(0).unwrap().description, "highway is steps, but lane is only a sidewalk");
    assert_eq!(warnings.get(0).unwrap().tags, store(&[("highway", "steps")]));
    for pairs in [vec![("highway", "footway")], vec![("highway", "path"), ("bicycle", "no")], vec![("highway", "footway"), ("bicycle", "dismount")]] {
        let (handled, built, warnings) = paths(&pairs);
        assert!(handled && warnings.is_empty());
        assert_eq!(built.forward_lanes.len(), 1);
        assert!(built.forward_lanes[0].is_designated(Designated::Foot));
        assert!(built.backward_lanes.is_empty());
    }
    let cycle = |direction| LaneBuilder::new_travel(direction, Designated::Bicycle, &rht(), HighwayType::Cycleway);
    let (handled, built, _) = paths(&[("highway", "cycleway")]);
    assert!(handled);
    assert_eq!(built.forward_lanes, vec![cycle(Direction::Forward), LaneBuilder::new_shoulder()]);
    assert_eq!(built.backward_lanes, vec![cycle(Direction::Backward), LaneBuilder::new_shoulder()]);
    let (_, built, _) = paths(&[("highway", "cycleway"), ("oneway", "yes"), ("foot", "no")]);
    assert_eq!(built.forward_lanes, vec![cycle(Direction::Forward)]);
    assert!(built.backward_lanes.is_empty());
    let (_, built, _) = paths(&[("highway", "footway"), ("bicycle", "yes")]);
    assert_eq!(built.forward_lanes.len(), 2);
    assert!(built.forward_lanes[0].is_designated(Designated::Bicycle));
}

#[test]
fn the_sides_are_put_together_by_driving_side() {
    let forward = vec![driving(Direction::Forward), bike(Direction::Forward)];
    let backward = vec![driving(Direction::Backward), LaneBuilder::new_shoulder()];
    assert_eq!(
        assemble_ltr(forward.clone(), backward.clone(), DrivingSide::Right),
        vec![LaneBuilder::new_shoulder(), driving(Direction::Backward), driving(Direction::Forward), bike(Direction::Forward)]
    );
    assert_eq!(
        assemble_ltr(forward.clone(), backward.clone(), DrivingSide::Left),
        vec![bike(Direction::Forward), driving(Direction::Forward), driving(Direction::Backward), LaneBuilder::new_shoulder()]
    );
    assert_eq!(assemble_ltr(vec![], vec![], DrivingSide::Left), vec![]);
    assert_eq!(assemble_ltr(forward.clone(), vec![], DrivingSide::Right), forward);
}
