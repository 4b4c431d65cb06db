use vstd::prelude::*;
use crate::locale::Locale;
use crate::road::Direction;
use crate::tag::{str_views, tag_is_any, Tags};
use crate::transform::builder::{LaneBuilder, RoadBuilder, RoadBuilderView};

verus! {

/// The values of a parking tag that say there is a parking lane.
pub open spec fn has_parking() -> Seq<Seq<char>> {
    seq!["parallel"@, "diagonal"@, "perpendicular"@]
}

/// Whether the tags put a parking lane on the forward side.
pub open spec fn parks_forward(tags: Map<Seq<char>, Seq<char>>) -> bool {
    tag_is_any(tags, "parking:lane:right"@, has_parking()) || tag_is_any(
        tags,
        "parking:lane:both"@,
        has_parking(),
    )
}

/// Whether the tags put a parking lane on the backward side.
pub open spec fn parks_backward(tags: Map<Seq<char>, Seq<char>>) -> bool {
    tag_is_any(tags, "parking:lane:left"@, has_parking()) || tag_is_any(
        tags,
        "parking:lane:both"@,
        has_parking(),
    )
}

/// The road with its parking lanes, each at the outer edge of its side.
pub open spec fn with_parking(
    tags: Map<Seq<char>, Seq<char>>,
    road: RoadBuilderView,
) -> RoadBuilderView {
    let road = if parks_forward(tags) {
        road.push_forward(LaneBuilder::parking(Direction::Forward, road.highway))
    } else {
        road
    };
    if parks_backward(tags) {
        road.push_backward(LaneBuilder::parking(Direction::Backward, road.highway))
    } else {
        road
    }
}

/// Adds the parking lanes that the tags describe.
pub fn parking(tags: &Tags, locale: &Locale, road: &mut RoadBuilder)
    ensures
        final(road)@ == with_parking(tags@, old(road)@),
{
    let values = ["parallel", "diagonal", "perpendicular"];
    assert(str_views(values@) =~= has_parking());
    let both = tags.is_any("parking:lane:both", &values);
    let parking_lane_fwd = tags.is_any("parking:lane:right", &values) || both;
    let parking_lane_back = tags.is_any("parking:lane:left", &values) || both;
    let highway = road.highway;
    if parking_lane_fwd {
        road.forward_lanes.push(LaneBuilder::new_parking(Direction::Forward, locale, highway));
    }
    if parking_lane_back {
        road.backward_lanes.push(LaneBuilder::new_parking(Direction::Backward, locale, highway));
    }
}

} // verus!
