use vstd::prelude::*;
use crate::locale::{DrivingSide, Locale};
use crate::road::Designated;
use crate::tag::{str_views, tag_is, tag_is_any, Tags};
use crate::transform::builder::{LaneBuilder, RoadBuilder, RoadBuilderView};

verus! {

/// The road with the sidewalks that the `sidewalk` tag describes. `both`
/// puts one on each side. `separate`, where the locale infers sidewalks,
/// puts one forward, and one backward if that side has lanes. `right` and
/// `left` put one on that side of the way, which is the forward side where
/// traffic keeps to it.
pub open spec fn with_sidewalks(
    tags: Map<Seq<char>, Seq<char>>,
    locale: Locale,
    road: RoadBuilderView,
) -> RoadBuilderView {
    let sidewalk = LaneBuilder::sidewalk(road.highway);
    if tag_is(tags, "sidewalk"@, "both"@) {
        road.push_forward(sidewalk).push_backward(sidewalk)
    } else if tag_is(tags, "sidewalk"@, "separate"@) && locale.inferred_sidewalks {
        if road.backward.len() > 0 {
            road.push_forward(sidewalk).push_backward(sidewalk)
        } else {
            road.push_forward(sidewalk)
        }
    } else if tag_is(tags, "sidewalk"@, "right"@) {
        if locale.driving_side == DrivingSide::Right {
            road.push_forward(sidewalk)
        } else {
            road.push_backward(sidewalk)
        }
    } else if tag_is(tags, "sidewalk"@, "left"@) {
        if locale.driving_side == DrivingSide::Right {
            road.push_backward(sidewalk)
        } else {
            road.push_forward(sidewalk)
        }
    } else {
        road
    }
}

/// Whether a side lacks a sidewalk at its outer edge.
pub open spec fn lacks_sidewalk(lanes: Seq<LaneBuilder>) -> bool {
    lanes.len() == 0 || !lanes.last().is_for(Designated::Foot)
}

/// Whether the tags rule out shoulders: the way is a motorway or under
/// construction, or closed to pedestrians or to everybody.
pub open spec fn shoulders_ruled_out(tags: Map<Seq<char>, Seq<char>>) -> bool {
    ||| tag_is_any(tags, "highway"@, seq!["motorway"@, "motorway_link"@, "construction"@])
    ||| tag_is(tags, "foot"@, "no"@)
    ||| tag_is(tags, "access"@, "no"@)
    ||| tag_is(tags, "motorroad"@, "yes"@)
}

/// Whether shoulders are inferred at all: the locale infers sidewalks, or
/// the way is a living street.
pub open spec fn shoulders_inferred(tags: Map<Seq<char>, Seq<char>>, locale: Locale) -> bool {
    locale.inferred_sidewalks || tag_is(tags, "highway"@, "living_street"@)
}

/// The road with a shoulder on each side that lacks a sidewalk; none where
/// the tags rule shoulders out, and none backward where `oneway=yes`.
pub open spec fn with_shoulders(
    tags: Map<Seq<char>, Seq<char>>,
    locale: Locale,
    road: RoadBuilderView,
) -> RoadBuilderView {
    let forward = lacks_sidewalk(road.forward) && !shoulders_ruled_out(tags);
    let backward = lacks_sidewalk(road.backward) && !shoulders_ruled_out(tags) && !tag_is(
        tags,
        "oneway"@,
        "yes"@,
    );
    let road = if shoulders_inferred(tags, locale) && forward {
        road.push_forward(LaneBuilder::shoulder())
    } else {
        road
    };
    if shoulders_inferred(tags, locale) && backward {
        road.push_backward(LaneBuilder::shoulder())
    } else {
        road
    }
}

/// The road with its sidewalks and shoulders.
pub open spec fn with_foot_and_shoulder(
    tags: Map<Seq<char>, Seq<char>>,
    locale: Locale,
    road: RoadBuilderView,
) -> RoadBuilderView {
    with_shoulders(tags, locale, with_sidewalks(tags, locale, road))
}

fn needs_shoulder(lanes: &Vec<LaneBuilder>) -> (needed: bool)
    ensures
        needed == lacks_sidewalk(lanes@),
{
    if lanes.len() == 0 {
        true
    } else {
        !lanes[lanes.len() - 1].is_designated(Designated::Foot)
    }
}

/// Adds the sidewalks that the tags describe, and shoulders where a side
/// has none.
pub fn foot_and_shoulder(tags: &Tags, locale: &Locale, road: &mut RoadBuilder)
    ensures
        final(road)@ == with_foot_and_shoulder(tags@, *locale, old(road)@),
{
    let sidewalk = LaneBuilder::new_sidewalk(locale, road.highway);
    let right_hand = matches!(locale.driving_side, DrivingSide::Right);
    if tags.is("sidewalk", "both") {
        road.forward_lanes.push(sidewalk);
        road.backward_lanes.push(sidewalk);
    } else if tags.is("sidewalk", "separate") && locale.inferred_sidewalks {
        road.forward_lanes.push(sidewalk);
        if road.backward_lanes.len() > 0 {
            road.backward_lanes.push(sidewalk);
        }
    } else if tags.is("sidewalk", "right") {
        if right_hand {
            road.forward_lanes.push(sidewalk);
        } else {
            road.backward_lanes.push(sidewalk);
        }
    } else if tags.is("sidewalk", "left") {
        if right_hand {
            road.backward_lanes.push(sidewalk);
        } else {
            road.forward_lanes.push(sidewalk);
        }
    }
    assert(road@ == with_sidewalks(tags@, *locale, old(road)@));
    let mut need_fwd_shoulder = needs_shoulder(&road.forward_lanes);
    let mut need_back_shoulder = needs_shoulder(&road.backward_lanes);
    let classes = ["motorway", "motorway_link", "construction"];
    assert(str_views(classes@) =~= seq!["motorway"@, "motorway_link"@, "construction"@]);
    if tags.is_any("highway", &classes) || tags.is("foot", "no") || tags.is("access", "no")
        || tags.is("motorroad", "yes") {
        need_fwd_shoulder = false;
        need_back_shoulder = false;
    }
    if tags.is("oneway", "yes") {
        need_back_shoulder = false;
    }
    if locale.inferred_sidewalks || tags.is("highway", "living_street") {
        if need_fwd_shoulder {
            road.forward_lanes.push(LaneBuilder::new_shoulder());
        }
        if need_back_shoulder {
            road.backward_lanes.push(LaneBuilder::new_shoulder());
        }
    }
}

} // verus!
