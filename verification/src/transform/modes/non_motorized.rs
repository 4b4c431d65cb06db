use vstd::prelude::*;
use crate::locale::Locale;
use crate::road::{Designated, Direction};
use crate::tag::{str_views, tag_is, tag_is_any, Tags};
use crate::transform::builder::{LaneBuilder, RoadBuilder, RoadBuilderView};
use crate::transform::error::{message, MsgKind, RoadMsg, RoadMsgView, RoadWarnings};

verus! {

/// The classes of way that carry no motor traffic.
pub open spec fn non_motorized_classes() -> Seq<Seq<char>> {
    seq!["cycleway"@, "footway"@, "path"@, "pedestrian"@, "steps"@, "track"@]
}

/// Whether the way carries no motor traffic.
pub open spec fn is_non_motorized(tags: Map<Seq<char>, Seq<char>>) -> bool {
    tag_is_any(tags, "highway"@, non_motorized_classes())
}

/// Whether a way without motor traffic is for pedestrians alone: cycling is
/// forbidden, or the way is a footway on which no tag allows it.
pub open spec fn foot_only(tags: Map<Seq<char>, Seq<char>>) -> bool {
    tag_is(tags, "bicycle"@, "no"@) || (tag_is(tags, "highway"@, "footway"@) && !tag_is_any(
        tags,
        "bicycle"@,
        seq!["designated"@, "yes"@],
    ))
}

/// One side of a way for cyclists: a cycle lane, and a shoulder to walk on
/// unless walking is forbidden.
pub open spec fn cycle_path_side(
    tags: Map<Seq<char>, Seq<char>>,
    direction: Direction,
    road: RoadBuilderView,
) -> Seq<LaneBuilder> {
    let lanes = seq![LaneBuilder::travel(direction, Designated::Bicycle, road.highway)];
    if tag_is(tags, "foot"@, "no"@) {
        lanes
    } else {
        lanes.push(LaneBuilder::shoulder())
    }
}

/// The road with the lanes of a way without motor traffic. Steps and ways
/// for pedestrians alone get one sidewalk. Any other gets a cycle lane
/// forward, and one backward unless `oneway=yes`, each with a shoulder to
/// walk on unless `foot=no`. A way with motor traffic is left as it is.
pub open spec fn non_motorized_road(
    tags: Map<Seq<char>, Seq<char>>,
    road: RoadBuilderView,
) -> RoadBuilderView {
    if !is_non_motorized(tags) {
        road
    } else if tag_is(tags, "highway"@, "steps"@) || foot_only(tags) {
        road.push_forward(LaneBuilder::sidewalk(road.highway))
    } else {
        road.with_forward(road.forward + cycle_path_side(tags, Direction::Forward, road))
            .with_backward(
            if tag_is(tags, "oneway"@, "yes"@) {
                road.backward
            } else {
                road.backward + cycle_path_side(tags, Direction::Backward, road)
            },
        )
    }
}

/// The warnings after the pass for ways without motor traffic: steps are
/// shown as a sidewalk, which a warning says.
pub open spec fn non_motorized_warnings(
    tags: Map<Seq<char>, Seq<char>>,
    warnings: Seq<RoadMsgView>,
) -> Seq<RoadMsgView> {
    if is_non_motorized(tags) && tag_is(tags, "highway"@, "steps"@) {
        warnings.push(
            message(
                MsgKind::Unimplemented,
                "highway is steps, but lane is only a sidewalk"@,
                tags.restrict(seq!["highway"@].to_set()),
            ),
        )
    } else {
        warnings
    }
}

fn path_side(tags: &Tags, locale: &Locale, direction: Direction, road: &RoadBuilder) -> (lanes: Vec<
    LaneBuilder,
>)
    ensures
        lanes@ == cycle_path_side(tags@, direction, road@),
{
    let mut lanes: Vec<LaneBuilder> = Vec::new();
    lanes.push(LaneBuilder::new_travel(direction, Designated::Bicycle, locale, road.highway));
    if !tags.is("foot", "no") {
        lanes.push(LaneBuilder::new_shoulder());
    }
    assert(lanes@ =~= cycle_path_side(tags@, direction, road@));
    lanes
}

/// Handles ways without motor traffic; says whether the way is one.
pub fn non_motorized(
    tags: &Tags,
    locale: &Locale,
    road: &mut RoadBuilder,
    warnings: &mut RoadWarnings,
) -> (handled: bool)
    ensures
        handled == is_non_motorized(tags@),
        final(road)@ == non_motorized_road(tags@, old(road)@),
        final(warnings)@ == non_motorized_warnings(tags@, old(warnings)@),
{
    let classes = ["cycleway", "footway", "path", "pedestrian", "steps", "track"];
    assert(str_views(classes@) =~= non_motorized_classes());
    if !tags.is_any("highway", &classes) {
        return false;
    }
    let allowed = ["designated", "yes"];
    assert(str_views(allowed@) =~= seq!["designated"@, "yes"@]);
    let steps = tags.is("highway", "steps");
    if steps {
        let keys = ["highway"];
        assert(str_views(keys@) =~= seq!["highway"@]);
        warnings.push(
            RoadMsg::unimplemented(
                "highway is steps, but lane is only a sidewalk",
                tags.subset(&keys),
            ),
        );
    }
    if steps || tags.is("bicycle", "no") || (tags.is("highway", "footway") && !tags.is_any(
        "bicycle",
        &allowed,
    )) {
        let sidewalk = LaneBuilder::new_sidewalk(locale, road.highway);
        road.forward_lanes.push(sidewalk);
        return true;
    }
    let mut forward = path_side(tags, locale, Direction::Forward, road);
    road.forward_lanes.append(&mut forward);
    if !tags.is("oneway", "yes") {
        let mut backward = path_side(tags, locale, Direction::Backward, road);
        road.backward_lanes.append(&mut backward);
    }
    true
}

} // verus!
