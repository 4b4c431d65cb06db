use vstd::prelude::*;
use crate::locale::Locale;
use crate::road::{Designated, Direction};
use crate::transform::builder::{LaneBuilder, Outcome, RoadBuilderView};
use crate::transform::error::RoadMsgView;
use crate::transform::modes::bicycle::{bicycle_outcome, driving_side_cycling, first_for, opposite_lane_cycling, opposite_side_cycling, sided_cycling, unsided_cycling, with_buffer, with_separation, Cycling};
use crate::transform::modes::bus::{bus_by_lane, bus_lane_marked, bus_lanes_road, bus_outcome, busway_outcome, RoadSide};
use crate::transform::modes::foot_shoulder::{with_foot_and_shoulder, with_sidewalks};
use crate::transform::modes::non_motorized::non_motorized_road;
use crate::transform::modes::parking::with_parking;
use crate::transform::tags_to_lanes::after_mode_passes;

verus! {

impl LaneBuilder {
    /// Whether `later` is this lane after passes over the road: of the same
    /// kind, with no inferred field known less firmly.
    pub open spec fn kept_as(self, later: LaneBuilder) -> bool {
        self.lane_type == later.lane_type && self.no_firmer_than(later)
    }
}

/// Whether `at` says where each lane of `earlier` stands in `later`: the
/// lanes keep their order, and each is kept with no field known less
/// firmly.
pub open spec fn found_at(
    earlier: Seq<LaneBuilder>,
    later: Seq<LaneBuilder>,
    at: Seq<int>,
) -> bool {
    &&& at.len() == earlier.len()
    &&& forall|i: int| 0 <= i < at.len() ==> 0 <= #[trigger] at[i] < later.len()
    &&& forall|i: int, j: int| 0 <= i < j < at.len() ==> #[trigger] at[i] < #[trigger] at[j]
    &&& forall|i: int| 0 <= i < at.len() ==> (#[trigger] earlier[i]).kept_as(later[at[i]])
}

/// Whether every lane of `earlier` is still in `later`, in the same order,
/// with no inferred field known less firmly than before.
#[verifier::opaque]
pub open spec fn ranks_kept(earlier: Seq<LaneBuilder>, later: Seq<LaneBuilder>) -> bool {
    exists|at: Seq<int>| found_at(earlier, later, at)
}

/// Whether both sides of the road keep their lanes and the ranks of their
/// fields.
pub open spec fn road_ranks_kept(earlier: RoadBuilderView, later: RoadBuilderView) -> bool {
    ranks_kept(earlier.forward, later.forward) && ranks_kept(earlier.backward, later.backward)
}

proof fn lemma_unchanged(lanes: Seq<LaneBuilder>)
    ensures
        ranks_kept(lanes, lanes),
{
    reveal(ranks_kept);
    let at = Seq::new(lanes.len(), |i: int| i);
    assert(found_at(lanes, lanes, at));
}

proof fn lemma_lane_by_lane(
    earlier: Seq<LaneBuilder>,
    middle: Seq<LaneBuilder>,
    later: Seq<LaneBuilder>,
)
    requires
        ranks_kept(earlier, middle),
        later.len() == middle.len(),
        forall|i: int| 0 <= i < middle.len() ==> (#[trigger] middle[i]).kept_as(later[i]),
    ensures
        ranks_kept(earlier, later),
{
    reveal(ranks_kept);
    let at = choose|at: Seq<int>| found_at(earlier, middle, at);
    assert forall|i: int| 0 <= i < at.len() implies (#[trigger] earlier[i]).kept_as(
        later[at[i]],
    ) by {
        assert(earlier[i].kept_as(middle[at[i]]));
        assert(middle[at[i]].kept_as(later[at[i]]));
    }
    assert(found_at(earlier, later, at));
}

proof fn lemma_inserted(
    earlier: Seq<LaneBuilder>,
    middle: Seq<LaneBuilder>,
    position: int,
    lane: LaneBuilder,
)
    requires
        ranks_kept(earlier, middle),
        0 <= position <= middle.len(),
    ensures
        ranks_kept(earlier, middle.insert(position, lane)),
{
    reveal(ranks_kept);
    let at = choose|at: Seq<int>| found_at(earlier, middle, at);
    let moved = Seq::new(
        at.len(),
        |i: int|
            if at[i] < position {
                at[i]
            } else {
                at[i] + 1
            },
    );
    let later = middle.insert(position, lane);
    assert forall|i: int| 0 <= i < moved.len() implies (#[trigger] earlier[i]).kept_as(
        later[moved[i]],
    ) by {
        assert(earlier[i].kept_as(middle[at[i]]));
    }
    assert forall|i: int, j: int| 0 <= i < j < moved.len() implies #[trigger] moved[i]
        < #[trigger] moved[j] by {
        assert(at[i] < at[j]);
    }
    assert(found_at(earlier, later, moved));
}

proof fn lemma_pushed(earlier: Seq<LaneBuilder>, middle: Seq<LaneBuilder>, lane: LaneBuilder)
    requires
        ranks_kept(earlier, middle),
    ensures
        ranks_kept(earlier, middle.push(lane)),
{
    lemma_inserted(earlier, middle, middle.len() as int, lane);
    assert(middle.insert(middle.len() as int, lane) =~= middle.push(lane));
}

proof fn lemma_appended(
    earlier: Seq<LaneBuilder>,
    middle: Seq<LaneBuilder>,
    more: Seq<LaneBuilder>,
)
    requires
        ranks_kept(earlier, middle),
    ensures
        ranks_kept(earlier, middle + more),
    decreases more.len(),
{
    if more.len() == 0 {
        assert(middle + more =~= middle);
    } else {
        lemma_appended(earlier, middle, more.drop_last());
        lemma_pushed(earlier, middle + more.drop_last(), more.last());
        assert((middle + more.drop_last()).push(more.last()) =~= middle + more);
    }
}

proof fn lemma_bus_lane_marked(base: RoadBuilderView, o: Outcome, side: RoadSide, innermost: bool)
    requires
        road_ranks_kept(base, o.road),
    ensures
        road_ranks_kept(base, bus_lane_marked(o, side, innermost).road),
{
    let after = bus_lane_marked(o, side, innermost).road;
    match side {
        RoadSide::Forward => {
            lemma_lane_by_lane(base.forward, o.road.forward, after.forward);
        },
        RoadSide::Backward => {
            lemma_lane_by_lane(base.backward, o.road.backward, after.backward);
        },
    }
}

proof fn lemma_buffer(
    earlier: Seq<LaneBuilder>,
    middle: Seq<LaneBuilder>,
    buffer: Option<crate::transform::builder::BufferType>,
    offset: int,
    direction: Direction,
)
    requires
        ranks_kept(earlier, middle),
        0 <= offset <= 1,
    ensures
        ranks_kept(earlier, with_buffer(middle, buffer, offset, direction)),
{
    lemma_first_for_in_range(middle, Designated::Bicycle);
    let at = first_for(middle, Designated::Bicycle);
    if buffer is Some && at < middle.len() {
        lemma_inserted(
            earlier,
            middle,
            at + offset,
            LaneBuilder::buffer(buffer->0, direction),
        );
    }
}

proof fn lemma_first_for_in_range(lanes: Seq<LaneBuilder>, designated: Designated)
    ensures
        0 <= first_for(lanes, designated) <= lanes.len(),
    decreases lanes.len(),
{
    if lanes.len() > 0 && !lanes[0].is_for(designated) {
        lemma_first_for_in_range(lanes.drop_first(), designated);
    }
}

/// No step of the busway scheme removes a lane or makes a field of a lane
/// less firmly known.
pub proof fn lemma_busway_keeps_ranks(
    tags: Map<Seq<char>, Seq<char>>,
    locale: Locale,
    road: RoadBuilderView,
    warnings: Seq<RoadMsgView>,
)
    ensures
        road_ranks_kept(road, busway_outcome(tags, locale, road, warnings).road),
{
    lemma_unchanged(road.forward);
    lemma_unchanged(road.backward);
    let o0 = Outcome::passed(road, warnings);
    let a = bus_lane_marked(o0, RoadSide::Forward, false);
    lemma_bus_lane_marked(road, o0, RoadSide::Forward, false);
    lemma_bus_lane_marked(road, a, RoadSide::Backward, false);
    let o1 = if crate::tag::tag_is(tags, "busway"@, "lane"@) {
        if !crate::transform::modes::bus::oneway_for_buses(tags) {
            bus_lane_marked(a, RoadSide::Backward, false)
        } else {
            a
        }
    } else {
        o0
    };
    assert(road_ranks_kept(road, o1.road));
    lemma_bus_lane_marked(road, o1, RoadSide::Backward, false);
    let o2 = if crate::tag::tag_is(tags, "busway"@, "opposite_lane"@) {
        bus_lane_marked(o1, RoadSide::Backward, false)
    } else {
        o1
    };
    assert(road_ranks_kept(road, o2.road));
    let b = bus_lane_marked(o2, RoadSide::Forward, false);
    lemma_bus_lane_marked(road, o2, RoadSide::Forward, false);
    let c = bus_lane_marked(b, RoadSide::Backward, false);
    lemma_bus_lane_marked(road, b, RoadSide::Backward, false);
    let o3 = if crate::tag::tag_is(tags, crate::tag::key_join("busway"@, "both"@), "lane"@) {
        c
    } else {
        o2
    };
    assert(road_ranks_kept(road, o3.road));
    lemma_bus_lane_marked(road, o3, RoadSide::Forward, false);
    let o4 = if crate::tag::tag_is(
        tags,
        crate::tag::key_join("busway"@, crate::locale::side_name(locale.driving_side)),
        "lane"@,
    ) {
        bus_lane_marked(o3, RoadSide::Forward, false)
    } else {
        o3
    };
    assert(road_ranks_kept(road, o4.road));
    lemma_bus_lane_marked(road, o4, RoadSide::Forward, true);
}

/// The bus pass removes no lane and makes no field of a lane less firmly
/// known.
pub proof fn lemma_bus_keeps_ranks(
    tags: Map<Seq<char>, Seq<char>>,
    locale: Locale,
    road: RoadBuilderView,
    warnings: Seq<RoadMsgView>,
)
    ensures
        road_ranks_kept(road, bus_outcome(tags, locale, road, warnings).road),
{
    lemma_unchanged(road.forward);
    lemma_unchanged(road.backward);
    lemma_busway_keeps_ranks(tags, locale, road, warnings);
    lemma_bus_lanes_keeps_ranks(tags, road);
}

/// The scheme with one value per lane removes no lane and makes no field of
/// a lane less firmly known.
pub proof fn lemma_bus_lanes_keeps_ranks(tags: Map<Seq<char>, Seq<char>>, road: RoadBuilderView)
    ensures
        road_ranks_kept(road, bus_lanes_road(tags, road)),
{
    let forward_values = crate::transform::modes::bus::forward_bus_values(
        tags,
        road.oneway.holds(),
    );
    lemma_unchanged(road.forward);
    lemma_unchanged(road.backward);
    lemma_by_lane(
        road.forward,
        crate::text::split_on(forward_values, '|'),
        crate::transform::modes::bus::bus_offset(road.forward),
    );
    match crate::transform::modes::bus::backward_bus_values(tags) {
        Some(values) => {
            lemma_by_lane(road.backward, crate::text::split_on(values, '|'), 0);
        },
        None => {},
    }
}

proof fn lemma_by_lane(lanes: Seq<LaneBuilder>, values: Seq<Seq<char>>, offset: int)
    ensures
        ranks_kept(lanes, bus_by_lane(lanes, values, offset)),
{
    lemma_unchanged(lanes);
    let later = bus_by_lane(lanes, values, offset);
    assert forall|i: int| 0 <= i < lanes.len() implies (#[trigger] lanes[i]).kept_as(
        later[i],
    ) by {}
    lemma_lane_by_lane(lanes, lanes, later);
}

proof fn lemma_separation(tags: Map<Seq<char>, Seq<char>>, base: RoadBuilderView, road: RoadBuilderView)
    requires
        road_ranks_kept(base, road),
    ensures
        road_ranks_kept(base, with_separation(tags, road)),
{
    let right_left = crate::transform::modes::bicycle::separation(
        tags,
        "cycleway:right:separation:left"@,
    );
    let left_left = crate::transform::modes::bicycle::separation(
        tags,
        "cycleway:left:separation:left"@,
    );
    let left_right = crate::transform::modes::bicycle::separation(
        tags,
        "cycleway:left:separation:right"@,
    );
    let forward = with_buffer(road.forward, right_left, 0, Direction::Forward);
    lemma_buffer(base.forward, road.forward, right_left, 0, Direction::Forward);
    lemma_buffer(base.backward, road.backward, left_left, 0, Direction::Backward);
    lemma_buffer(base.forward, forward, left_right, 1, Direction::Forward);
}

/// The bicycle pass removes no lane and makes no field of a lane less
/// firmly known.
pub proof fn lemma_bicycle_keeps_ranks(
    tags: Map<Seq<char>, Seq<char>>,
    locale: Locale,
    road: RoadBuilderView,
    warnings: Seq<RoadMsgView>,
)
    ensures
        road_ranks_kept(road, bicycle_outcome(tags, locale, road, warnings).road),
{
    lemma_unchanged(road.forward);
    lemma_unchanged(road.backward);
    let highway = road.highway;
    // cycleway=lane|track
    let forward = crate::transform::modes::bicycle::cycle_lane(Direction::Forward, highway);
    let backward = crate::transform::modes::bicycle::cycle_lane(Direction::Backward, highway);
    let both = crate::transform::modes::bicycle::cycle_lane(Direction::Both, highway);
    lemma_pushed(road.forward, road.forward, forward);
    lemma_pushed(road.backward, road.backward, backward);
    let unsided = unsided_cycling(tags, road, warnings);
    assert(road_ranks_kept(road, unsided.road));
    lemma_separation(tags, road, unsided.road);
    // cycleway:both=lane|track
    lemma_pushed(road.forward, road.forward, both);
    lemma_separation(tags, road, road.push_forward(both));
    // cycleway:left, cycleway:right
    let c0 = Cycling { road, warnings, added: false };
    let c1 = opposite_lane_cycling(tags, c0);
    lemma_pushed(road.backward, c0.road.backward, backward);
    assert(road_ranks_kept(road, c1.road));
    let c2 = driving_side_cycling(tags, locale, c1);
    assert(road_ranks_kept(road, c2.road)) by {
        let side = locale.driving_side;
        let lane = crate::transform::modes::bicycle::cycle_lane(
            if crate::transform::modes::bicycle::cycleway_both_ways(tags, side) {
                Direction::Both
            } else {
                Direction::Forward
            },
            highway,
        );
        lemma_pushed(road.forward, c1.road.forward, lane);
        lemma_pushed(road.forward, c1.road.forward, backward);
        lemma_pushed(road.forward, c1.road.forward.push(lane), backward);
    }
    let c3 = opposite_side_cycling(tags, locale, c2);
    assert(road_ranks_kept(road, c3.road)) by {
        lemma_pushed(road.backward, c2.road.backward, both);
        lemma_pushed(road.backward, c2.road.backward, backward);
        lemma_inserted(road.forward, c2.road.forward, 0, forward);
    }
    assert(c3 == sided_cycling(tags, locale, road, warnings));
    lemma_separation(tags, road, c3.road);
}

/// The parking pass removes no lane and makes no field of a lane less
/// firmly known.
pub proof fn lemma_parking_keeps_ranks(tags: Map<Seq<char>, Seq<char>>, road: RoadBuilderView)
    ensures
        road_ranks_kept(road, with_parking(tags, road)),
{
    lemma_unchanged(road.forward);
    lemma_unchanged(road.backward);
    lemma_pushed(road.forward, road.forward, LaneBuilder::parking(Direction::Forward, road.highway));
    lemma_pushed(
        road.backward,
        road.backward,
        LaneBuilder::parking(Direction::Backward, road.highway),
    );
}

/// The pass for sidewalks and shoulders removes no lane and makes no field
/// of a lane less firmly known.
pub proof fn lemma_foot_and_shoulder_keeps_ranks(
    tags: Map<Seq<char>, Seq<char>>,
    locale: Locale,
    road: RoadBuilderView,
)
    ensures
        road_ranks_kept(road, with_foot_and_shoulder(tags, locale, road)),
{
    lemma_unchanged(road.forward);
    lemma_unchanged(road.backward);
    let sidewalk = LaneBuilder::sidewalk(road.highway);
    lemma_pushed(road.forward, road.forward, sidewalk);
    lemma_pushed(road.backward, road.backward, sidewalk);
    let walked = with_sidewalks(tags, locale, road);
    assert(road_ranks_kept(road, walked));
    lemma_pushed(road.forward, walked.forward, LaneBuilder::shoulder());
    lemma_pushed(road.backward, walked.backward, LaneBuilder::shoulder());
}

/// The pass for ways without motor traffic removes no lane and makes no
/// field of a lane less firmly known.
pub proof fn lemma_non_motorized_keeps_ranks(tags: Map<Seq<char>, Seq<char>>, road: RoadBuilderView)
    ensures
        road_ranks_kept(road, non_motorized_road(tags, road)),
{
    lemma_unchanged(road.forward);
    lemma_unchanged(road.backward);
    lemma_pushed(road.forward, road.forward, LaneBuilder::sidewalk(road.highway));
    lemma_appended(
        road.forward,
        road.forward,
        crate::transform::modes::non_motorized::cycle_path_side(tags, Direction::Forward, road),
    );
    lemma_appended(
        road.backward,
        road.backward,
        crate::transform::modes::non_motorized::cycle_path_side(tags, Direction::Backward, road),
    );
}

/// Whether `later` keeps what `middle` kept of `earlier`.
proof fn lemma_then(earlier: Seq<LaneBuilder>, middle: Seq<LaneBuilder>, later: Seq<LaneBuilder>)
    requires
        ranks_kept(earlier, middle),
        ranks_kept(middle, later),
    ensures
        ranks_kept(earlier, later),
{
    reveal(ranks_kept);
    let first = choose|at: Seq<int>| found_at(earlier, middle, at);
    let second = choose|at: Seq<int>| found_at(middle, later, at);
    let at = Seq::new(first.len(), |i: int| second[first[i]]);
    assert forall|i: int| 0 <= i < at.len() implies (#[trigger] earlier[i]).kept_as(
        later[at[i]],
    ) by {
        assert(earlier[i].kept_as(middle[first[i]]));
        assert(middle[first[i]].kept_as(later[second[first[i]]]));
    }
    assert forall|i: int, j: int| 0 <= i < j < at.len() implies #[trigger] at[i]
        < #[trigger] at[j] by {
        assert(first[i] < first[j]);
        assert(second[first[i]] < second[first[j]]);
    }
    assert(found_at(earlier, later, at));
}

/// Monotonicity of provenance: the passes for the modes of travel, run one
/// after the other, remove no lane of the road they are given, keep the
/// lanes in their order, and leave no inferred field of a lane less firmly
/// known than it was.
pub proof fn lemma_mode_passes_keep_ranks(
    tags: Map<Seq<char>, Seq<char>>,
    locale: Locale,
    road: RoadBuilderView,
    warnings: Seq<RoadMsgView>,
)
    ensures
        road_ranks_kept(road, after_mode_passes(tags, locale, road, warnings).road),
{
    let buses = bus_outcome(tags, locale, road, warnings);
    lemma_bus_keeps_ranks(tags, locale, road, warnings);
    let bicycles = bicycle_outcome(tags, locale, buses.road, buses.warnings);
    lemma_bicycle_keeps_ranks(tags, locale, buses.road, buses.warnings);
    lemma_then(road.forward, buses.road.forward, bicycles.road.forward);
    lemma_then(road.backward, buses.road.backward, bicycles.road.backward);
    let parked = with_parking(tags, bicycles.road);
    lemma_parking_keeps_ranks(tags, bicycles.road);
    lemma_then(road.forward, bicycles.road.forward, parked.forward);
    lemma_then(road.backward, bicycles.road.backward, parked.backward);
    let walked = with_foot_and_shoulder(tags, locale, parked);
    lemma_foot_and_shoulder_keeps_ranks(tags, locale, parked);
    lemma_then(road.forward, parked.forward, walked.forward);
    lemma_then(road.backward, parked.backward, walked.backward);
}

} // verus!
