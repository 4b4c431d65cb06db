use vstd::prelude::*;
use crate::locale::Locale;
use crate::road::{Designated, Direction};
use crate::transform::builder::{BufferType, LaneBuilder, LaneType, RoadBuilderView};
use crate::transform::driving::{driving_lanes, empty_road, forward_count, backward_count, with_driving_lanes};
use crate::transform::error::RoadMsgView;
use crate::transform::modes::bicycle::{bicycle_outcome, cycle_lane, driving_side_cycling, first_for, opposite_lane_cycling, opposite_side_cycling, separation, sided_cycling, unsided_cycling, with_buffer, with_separation, Cycling};
use crate::transform::modes::bus::{bus_lanes_road, bus_outcome, busway_outcome};
use crate::transform::modes::foot_shoulder::{with_foot_and_shoulder, with_sidewalks};
use crate::transform::modes::non_motorized::{cycle_path_side, non_motorized_road};
use crate::transform::modes::parking::with_parking;
use crate::transform::symmetry::{bus_marks_only, lemma_busway_marks_only};
use crate::transform::tags_to_lanes::{after_mode_passes, inferred_road};

verus! {

/// How many lanes of the list are the turn lane that both directions
/// share.
pub open spec fn turn_lanes(lanes: Seq<LaneBuilder>) -> nat
    decreases lanes.len(),
{
    if lanes.len() == 0 {
        0
    } else {
        turn_lanes(lanes.drop_last()) + if lanes.last().lane_type == LaneType::SharedLeftTurn {
            1nat
        } else {
            0nat
        }
    }
}

/// Whether the two roads have as many shared turn lanes on each side.
pub open spec fn same_turn_lanes(earlier: RoadBuilderView, later: RoadBuilderView) -> bool {
    turn_lanes(later.forward) == turn_lanes(earlier.forward) && turn_lanes(later.backward)
        == turn_lanes(earlier.backward)
}

proof fn lemma_turn_concat(first: Seq<LaneBuilder>, second: Seq<LaneBuilder>)
    ensures
        turn_lanes(first + second) == turn_lanes(first) + turn_lanes(second),
    decreases second.len(),
{
    if second.len() == 0 {
        assert(first + second =~= first);
    } else {
        lemma_turn_concat(first, second.drop_last());
        assert((first + second).drop_last() =~= first + second.drop_last());
        assert((first + second).last() == second.last());
    }
}

proof fn lemma_turn_one(lane: LaneBuilder)
    ensures
        turn_lanes(seq![lane]) == if lane.lane_type == LaneType::SharedLeftTurn {
            1nat
        } else {
            0nat
        },
{
    assert(seq![lane].drop_last() =~= Seq::<LaneBuilder>::empty());
    assert(turn_lanes(Seq::<LaneBuilder>::empty()) == 0);
    assert(seq![lane].last() == lane);
}

proof fn lemma_turn_inserted(lanes: Seq<LaneBuilder>, position: int, lane: LaneBuilder)
    requires
        0 <= position <= lanes.len(),
        lane.lane_type != LaneType::SharedLeftTurn,
    ensures
        turn_lanes(lanes.insert(position, lane)) == turn_lanes(lanes),
{
    let head = lanes.take(position);
    let tail = lanes.skip(position);
    assert(lanes.insert(position, lane) =~= head + seq![lane] + tail);
    assert(lanes =~= head + tail);
    lemma_turn_one(lane);
    lemma_turn_concat(head, seq![lane]);
    lemma_turn_concat(head + seq![lane], tail);
    lemma_turn_concat(head, tail);
}

proof fn lemma_turn_pushed(lanes: Seq<LaneBuilder>, lane: LaneBuilder)
    requires
        lane.lane_type != LaneType::SharedLeftTurn,
    ensures
        turn_lanes(lanes.push(lane)) == turn_lanes(lanes),
{
    assert(lanes.push(lane).drop_last() =~= lanes);
}

proof fn lemma_turn_same_kinds(earlier: Seq<LaneBuilder>, later: Seq<LaneBuilder>)
    requires
        earlier.len() == later.len(),
        forall|i: int| 0 <= i < later.len() ==> (#[trigger] later[i]).lane_type
            == earlier[i].lane_type,
    ensures
        turn_lanes(later) == turn_lanes(earlier),
    decreases later.len(),
{
    if later.len() > 0 {
        let a = earlier.drop_last();
        let b = later.drop_last();
        assert forall|i: int| 0 <= i < b.len() implies (#[trigger] b[i]).lane_type
            == a[i].lane_type by {
            assert(later[i].lane_type == earlier[i].lane_type);
        }
        lemma_turn_same_kinds(a, b);
        assert(later[later.len() - 1].lane_type == earlier[later.len() - 1].lane_type);
    }
}

proof fn lemma_turn_repeated(lane: LaneBuilder, count: nat)
    requires
        lane.lane_type != LaneType::SharedLeftTurn,
    ensures
        turn_lanes(Seq::new(count, |i: int| lane)) == 0,
    decreases count,
{
    if count > 0 {
        lemma_turn_repeated(lane, (count - 1) as nat);
        assert(Seq::new(count, |i: int| lane).drop_last() =~= Seq::new(
            (count - 1) as nat,
            |i: int| lane,
        ));
    }
}

proof fn lemma_turn_marked(earlier: Seq<LaneBuilder>, later: Seq<LaneBuilder>)
    requires
        bus_marks_only(earlier, later),
    ensures
        turn_lanes(later) == turn_lanes(earlier),
{
    assert forall|i: int| 0 <= i < later.len() implies (#[trigger] later[i]).lane_type
        == earlier[i].lane_type by {
        assert(later[i] == earlier[i] || later[i] == earlier[i].with_bus());
    }
    lemma_turn_same_kinds(earlier, later);
}

proof fn lemma_turn_buffer(
    lanes: Seq<LaneBuilder>,
    buffer: Option<BufferType>,
    offset: int,
    direction: Direction,
)
    requires
        0 <= offset <= 1,
    ensures
        turn_lanes(with_buffer(lanes, buffer, offset, direction)) == turn_lanes(lanes),
{
    let at = first_for(lanes, Designated::Bicycle);
    if buffer is Some && at < lanes.len() {
        lemma_first_for_at_least(lanes, Designated::Bicycle);
        lemma_turn_inserted(lanes, at + offset, LaneBuilder::buffer(buffer->0, direction));
    }
}

proof fn lemma_first_for_at_least(lanes: Seq<LaneBuilder>, designated: Designated)
    ensures
        0 <= first_for(lanes, designated),
    decreases lanes.len(),
{
    if lanes.len() > 0 && !lanes[0].is_for(designated) {
        lemma_first_for_at_least(lanes.drop_first(), designated);
    }
}

proof fn lemma_turn_separation(tags: Map<Seq<char>, Seq<char>>, road: RoadBuilderView)
    ensures
        same_turn_lanes(road, with_separation(tags, road)),
{
    let right_left = separation(tags, "cycleway:right:separation:left"@);
    let left_left = separation(tags, "cycleway:left:separation:left"@);
    let left_right = separation(tags, "cycleway:left:separation:right"@);
    let forward = with_buffer(road.forward, right_left, 0, Direction::Forward);
    lemma_turn_buffer(road.forward, right_left, 0, Direction::Forward);
    lemma_turn_buffer(road.backward, left_left, 0, Direction::Backward);
    lemma_turn_buffer(forward, left_right, 1, Direction::Forward);
}

/// The bus pass adds no shared turn lane and takes none away.
pub proof fn lemma_bus_keeps_turn_lanes(
    tags: Map<Seq<char>, Seq<char>>,
    locale: Locale,
    road: RoadBuilderView,
    warnings: Seq<RoadMsgView>,
)
    ensures
        same_turn_lanes(road, bus_outcome(tags, locale, road, warnings).road),
{
    lemma_busway_marks_only(tags, locale, road, warnings);
    let by_way = busway_outcome(tags, locale, road, warnings).road;
    lemma_turn_marked(road.forward, by_way.forward);
    lemma_turn_marked(road.backward, by_way.backward);
    let by_lane = bus_lanes_road(tags, road);
    assert(bus_marks_only(road.forward, by_lane.forward));
    assert(bus_marks_only(road.backward, by_lane.backward));
    lemma_turn_marked(road.forward, by_lane.forward);
    lemma_turn_marked(road.backward, by_lane.backward);
}

/// The bicycle pass adds no shared turn lane and takes none away.
pub proof fn lemma_bicycle_keeps_turn_lanes(
    tags: Map<Seq<char>, Seq<char>>,
    locale: Locale,
    road: RoadBuilderView,
    warnings: Seq<RoadMsgView>,
)
    ensures
        same_turn_lanes(road, bicycle_outcome(tags, locale, road, warnings).road),
{
    let highway = road.highway;
    let forward = cycle_lane(Direction::Forward, highway);
    let backward = cycle_lane(Direction::Backward, highway);
    let both = cycle_lane(Direction::Both, highway);
    lemma_turn_pushed(road.forward, forward);
    lemma_turn_pushed(road.backward, backward);
    let unsided = unsided_cycling(tags, road, warnings);
    assert(same_turn_lanes(road, unsided.road));
    lemma_turn_separation(tags, unsided.road);
    lemma_turn_pushed(road.forward, both);
    lemma_turn_separation(tags, road.push_forward(both));
    let c0 = Cycling { road, warnings, added: false };
    let c1 = opposite_lane_cycling(tags, c0);
    assert(same_turn_lanes(road, c1.road));
    let c2 = driving_side_cycling(tags, locale, c1);
    assert(same_turn_lanes(road, c2.road)) by {
        let side = locale.driving_side;
        let lane = cycle_lane(
            if crate::transform::modes::bicycle::cycleway_both_ways(tags, side) {
                Direction::Both
            } else {
                Direction::Forward
            },
            highway,
        );
        lemma_turn_pushed(c1.road.forward, lane);
        lemma_turn_pushed(c1.road.forward, backward);
        lemma_turn_pushed(c1.road.forward.push(lane), backward);
    }
    let c3 = opposite_side_cycling(tags, locale, c2);
    assert(same_turn_lanes(road, c3.road)) by {
        lemma_turn_pushed(c2.road.backward, both);
        lemma_turn_pushed(c2.road.backward, backward);
        lemma_turn_inserted(c2.road.forward, 0, forward);
    }
    assert(c3 == sided_cycling(tags, locale, road, warnings));
    lemma_turn_separation(tags, c3.road);
}

/// The parking pass and the pass for sidewalks and shoulders add no shared
/// turn lane and take none away.
pub proof fn lemma_edges_keep_turn_lanes(
    tags: Map<Seq<char>, Seq<char>>,
    locale: Locale,
    road: RoadBuilderView,
)
    ensures
        same_turn_lanes(road, with_parking(tags, road)),
        same_turn_lanes(road, with_foot_and_shoulder(tags, locale, road)),
{
    lemma_turn_pushed(road.forward, LaneBuilder::parking(Direction::Forward, road.highway));
    lemma_turn_pushed(road.backward, LaneBuilder::parking(Direction::Backward, road.highway));
    let sidewalk = LaneBuilder::sidewalk(road.highway);
    lemma_turn_pushed(road.forward, sidewalk);
    lemma_turn_pushed(road.backward, sidewalk);
    let walked = with_sidewalks(tags, locale, road);
    assert(same_turn_lanes(road, walked));
    lemma_turn_pushed(walked.forward, LaneBuilder::shoulder());
    lemma_turn_pushed(walked.backward, LaneBuilder::shoulder());
}

proof fn lemma_passes_keep_turn_lanes(
    tags: Map<Seq<char>, Seq<char>>,
    locale: Locale,
    road: RoadBuilderView,
    warnings: Seq<RoadMsgView>,
)
    ensures
        same_turn_lanes(road, after_mode_passes(tags, locale, road, warnings).road),
{
    let buses = bus_outcome(tags, locale, road, warnings);
    lemma_bus_keeps_turn_lanes(tags, locale, road, warnings);
    let bicycles = bicycle_outcome(tags, locale, buses.road, buses.warnings);
    lemma_bicycle_keeps_turn_lanes(tags, locale, buses.road, buses.warnings);
    let parked = with_parking(tags, bicycles.road);
    lemma_edges_keep_turn_lanes(tags, locale, bicycles.road);
    lemma_edges_keep_turn_lanes(tags, locale, parked);
}

proof fn lemma_driving_turn_lanes(tags: Map<Seq<char>, Seq<char>>)
    ensures
        turn_lanes(with_driving_lanes(tags, empty_road(tags)).forward) <= 1,
        turn_lanes(with_driving_lanes(tags, empty_road(tags)).backward) == 0,
{
    let road = empty_road(tags);
    let oneway = road.oneway.holds();
    let ahead = driving_lanes(tags, Direction::Forward, forward_count(tags, oneway), road.highway);
    let back = driving_lanes(tags, Direction::Backward, backward_count(tags, oneway), road.highway);
    let lane = |direction: Direction|
        LaneBuilder::driving(
            direction,
            crate::transform::driving::bus_only(tags),
            crate::transform::driving::under_construction(tags),
            road.highway,
        );
    lemma_turn_repeated(lane(Direction::Forward), forward_count(tags, oneway) as nat);
    lemma_turn_repeated(lane(Direction::Backward), backward_count(tags, oneway) as nat);
    assert(ahead =~= Seq::new(
        forward_count(tags, oneway) as nat,
        |i: int| lane(Direction::Forward),
    ));
    assert(back =~= Seq::new(
        backward_count(tags, oneway) as nat,
        |i: int| lane(Direction::Backward),
    ));
    assert(road.forward + ahead =~= ahead);
    assert(road.backward + back =~= back);
    let turn = LaneBuilder::shared_left_turn(road.highway);
    assert(ahead.insert(0, turn) =~= seq![turn] + ahead);
    lemma_turn_one(turn);
    lemma_turn_concat(seq![turn], ahead);
}

proof fn lemma_non_motorized_turn_lanes(tags: Map<Seq<char>, Seq<char>>)
    ensures
        turn_lanes(non_motorized_road(tags, empty_road(tags)).forward) == 0,
        turn_lanes(non_motorized_road(tags, empty_road(tags)).backward) == 0,
{
    let road = empty_road(tags);
    lemma_turn_pushed(road.forward, LaneBuilder::sidewalk(road.highway));
    let ahead = cycle_path_side(tags, Direction::Forward, road);
    let back = cycle_path_side(tags, Direction::Backward, road);
    assert(road.forward + ahead =~= ahead);
    assert(road.backward + back =~= back);
    let cycle_ahead = LaneBuilder::travel(Direction::Forward, Designated::Bicycle, road.highway);
    let cycle_back = LaneBuilder::travel(Direction::Backward, Designated::Bicycle, road.highway);
    lemma_turn_one(cycle_ahead);
    lemma_turn_one(cycle_back);
    lemma_turn_pushed(seq![cycle_ahead], LaneBuilder::shoulder());
    lemma_turn_pushed(seq![cycle_back], LaneBuilder::shoulder());
}

/// The turn lane that both directions share appears at most once in an
/// inferred road, and never on the backward side.
pub proof fn lemma_one_shared_turn_lane(
    tags: Map<Seq<char>, Seq<char>>,
    locale: Locale,
    warnings: Seq<RoadMsgView>,
)
    ensures
        turn_lanes(inferred_road(tags, locale, warnings).road.forward) <= 1,
        turn_lanes(inferred_road(tags, locale, warnings).road.backward) == 0,
{
    let road = empty_road(tags);
    lemma_non_motorized_turn_lanes(tags);
    lemma_driving_turn_lanes(tags);
    let driven = with_driving_lanes(tags, road);
    let checked = crate::transform::unsupported::unsupported_warnings(tags, warnings);
    let counted = crate::transform::driving::counting_warnings(
        tags,
        road.oneway.holds(),
        checked,
    );
    lemma_passes_keep_turn_lanes(tags, locale, driven, counted);
}

} // verus!
