use vstd::prelude::*;
use crate::locale::{side_name, DrivingSide, Locale, WaySide};
use crate::road::Designated;
use crate::tag::{has_subtree, key_join, tag_is, tag_is_any};
use crate::transform::builder::{LaneBuilder, Outcome, RoadBuilderView};
use crate::transform::config::Config;
use crate::transform::driving::{counting_warnings, empty_road, under_construction, with_driving_lanes};
use crate::road::RoadView;
use crate::transform::error::{RoadErrorView, RoadMsgView};
use crate::transform::sides::mirror_key;
use crate::transform::tags_to_lanes::RoadFromTagsView;
use crate::transform::mirror::{lemma_lanes_mirror, mirrored_lanes};
use crate::transform::modes::bicycle::{bicycle_outcome, cycleway_key, is_cycleway, lemma_first_for, opposite_lane_or_track, with_separation};
use crate::transform::modes::bus::{both_sides_on_oneway, bus_lane_marked, bus_lanes_road, bus_outcome, busway_ambiguous, busway_marked, busway_outcome, oneway_for_buses, RoadSide};
use crate::transform::modes::foot_shoulder::with_foot_and_shoulder;
use crate::transform::modes::non_motorized::{is_non_motorized, non_motorized_road, non_motorized_warnings};
use crate::transform::modes::parking::{parks_backward, parks_forward, with_parking};
use crate::transform::sides::{lemma_access_keys_plain, lemma_across, lemma_joined_keys, lemma_plain, lemma_plain_bus_keys, lemma_plain_count_keys, lemma_plain_cycle_keys, lemma_plain_way_keys, lemma_sided_keys_are_not_sidewalk, lemma_subtrees_mirror, mirror_tags, reads_across, reads_alike};
use crate::transform::tags_to_lanes::{after_mode_passes, inferred_road, road_from_tags};
use crate::transform::unsupported::{access_keys, restricts_access, unsupported_error, unsupported_warnings};

verus! {

/// A diagnostic about the mirrored way: it says the same of the mirrored
/// tags.
pub open spec fn mirrored_msg(msg: RoadMsgView) -> RoadMsgView {
    RoadMsgView { kind: msg.kind, description: msg.description, tags: mirror_tags(msg.tags) }
}

/// The diagnostics of a list, each about the mirrored way.
pub open spec fn mirrored_msgs(msgs: Seq<RoadMsgView>) -> Seq<RoadMsgView> {
    msgs.map_values(|msg: RoadMsgView| mirrored_msg(msg))
}

/// An error about the mirrored way.
pub open spec fn mirrored_error(error: RoadErrorView) -> RoadErrorView {
    match error {
        RoadErrorView::Msg(msg) => RoadErrorView::Msg(mirrored_msg(msg)),
        RoadErrorView::Warnings(warnings) => RoadErrorView::Warnings(mirrored_msgs(warnings)),
    }
}

/// What an inference gives for the mirrored way: the lanes in reverse
/// order, each mirrored, and every diagnostic about the mirrored tags.
pub open spec fn mirrored_result(
    result: Result<RoadFromTagsView, RoadErrorView>,
) -> Result<RoadFromTagsView, RoadErrorView> {
    match result {
        Ok(found) => Ok(
            RoadFromTagsView {
                road: RoadView {
                    lanes: mirrored_lanes(found.road.lanes),
                    highway: found.road.highway,
                },
                warnings: mirrored_msgs(found.warnings),
            },
        ),
        Err(error) => Err(mirrored_error(error)),
    }
}

/// Whether the second list holds the diagnostics of the first, each about
/// the mirrored way.
pub open spec fn say_the_same(first: Seq<RoadMsgView>, second: Seq<RoadMsgView>) -> bool {
    second == mirrored_msgs(first)
}

/// Whether the second outcome is the first for the mirrored way: the same
/// road, and the diagnostics about the mirrored tags.
pub open spec fn same_outcome(first: Outcome, second: Outcome) -> bool {
    &&& first.road == second.road
    &&& second.error == match first.error {
        Some(error) => Some(mirrored_error(error)),
        None => None,
    }
    &&& say_the_same(first.warnings, second.warnings)
}

/// Whether a set of keys holds the mirror image of each of its keys.
pub open spec fn closed_under_mirror(keys: Set<Seq<char>>) -> bool {
    forall|key: Seq<char>| keys.contains(mirror_key(key)) == #[trigger] keys.contains(key)
}

/// Whether `other` holds, of the keys of the list, the mirror image of
/// what `tags` holds of them.
pub open spec fn restricts_alike(
    tags: Map<Seq<char>, Seq<char>>,
    other: Map<Seq<char>, Seq<char>>,
    keys: Seq<Seq<char>>,
) -> bool {
    other.restrict(keys.to_set()) == mirror_tags(tags.restrict(keys.to_set()))
}

/// A list with one diagnostic more is mirrored by mirroring the one.
pub proof fn lemma_mirrored_push(msgs: Seq<RoadMsgView>, msg: RoadMsgView)
    ensures
        mirrored_msgs(msgs.push(msg)) == mirrored_msgs(msgs).push(mirrored_msg(msg)),
{
    assert(mirrored_msgs(msgs.push(msg)) =~= mirrored_msgs(msgs).push(mirrored_msg(msg)));
}

/// A diagnostic that names no tags is its own mirror image.
pub proof fn lemma_plain_message_mirrors(kind: crate::transform::error::MsgKind, description: Seq<char>)
    ensures
        mirrored_msg(crate::transform::error::plain_message(kind, description))
            == crate::transform::error::plain_message(kind, description),
{
    assert(mirror_tags(Map::<Seq<char>, Seq<char>>::empty()) =~= Map::<
        Seq<char>,
        Seq<char>,
    >::empty());
}

/// A set of keys that holds the mirror image of each of its keys is closed
/// under mirroring.
pub proof fn lemma_closed_under_mirror(keys: Set<Seq<char>>)
    requires
        forall|key: Seq<char>| #[trigger] keys.contains(key) ==> keys.contains(mirror_key(key)),
    ensures
        closed_under_mirror(keys),
{
    assert forall|key: Seq<char>| keys.contains(mirror_key(key)) == #[trigger] keys.contains(
        key,
    ) by {
        crate::transform::sides::lemma_mirror_key_twice(key);
        if keys.contains(mirror_key(key)) {
            assert(keys.contains(mirror_key(mirror_key(key))));
        }
    }
}

/// A list of plain keys is closed under mirroring.
pub proof fn lemma_plain_keys_closed(keys: Seq<Seq<char>>)
    requires
        forall|i: int| 0 <= i < keys.len() ==> crate::transform::sides::plain(#[trigger] keys[i]),
    ensures
        closed_under_mirror(keys.to_set()),
{
    assert forall|key: Seq<char>| #[trigger] keys.to_set().contains(key) implies keys.to_set().contains(
        mirror_key(key),
    ) by {
        let i = choose|i: int| 0 <= i < keys.len() && keys[i] == key;
        assert(crate::transform::sides::plain(keys[i]));
    }
    lemma_closed_under_mirror(keys.to_set());
}

/// Of a set of keys that is closed under mirroring, the mirrored tags hold
/// the mirror image of what the tags hold.
pub proof fn lemma_restrict_mirrors(tags: Map<Seq<char>, Seq<char>>, keys: Seq<Seq<char>>)
    requires
        closed_under_mirror(keys.to_set()),
    ensures
        restricts_alike(tags, mirror_tags(tags), keys),
{
    let set = keys.to_set();
    let here = mirror_tags(tags).restrict(set);
    let there = mirror_tags(tags.restrict(set));
    assert forall|key: Seq<char>| here.contains_key(key) == there.contains_key(key) by {
        assert(set.contains(mirror_key(key)) == set.contains(key));
    }
    assert(here =~= there);
}

/// Whether the cycleway tags add a cycle lane to a road with motor traffic.
pub open spec fn adds_cycle_lanes(tags: Map<Seq<char>, Seq<char>>) -> bool {
    ||| is_cycleway(tags, None)
    ||| is_cycleway(tags, Some(WaySide::Both))
    ||| is_cycleway(tags, Some(WaySide::Left))
    ||| is_cycleway(tags, Some(WaySide::Right))
    ||| tag_is(tags, "cycleway"@, "opposite_lane"@)
    ||| tag_is_any(tags, cycleway_key(Some(WaySide::Left)), opposite_lane_or_track())
    ||| tag_is_any(tags, cycleway_key(Some(WaySide::Right)), opposite_lane_or_track())
}

/// Whether the passes for bicycles and parking treat the tags alike on
/// both sides: no cycle lane is added, since none is accepted under
/// left-hand traffic, and parking lanes lie on both sides or on none, since
/// `parking:lane:right` always means the forward side.
pub open spec fn passes_mirror(tags: Map<Seq<char>, Seq<char>>) -> bool {
    !adds_cycle_lanes(tags) && parks_forward(tags) == parks_backward(tags)
}

/// The tags for which the inference can be held against its mirror image:
/// those that the passes for bicycles and parking treat alike on both
/// sides, and those for which these passes do not run at all, because the
/// inference stops before them, the way carries no motor traffic, or it is
/// closed for works.
pub open spec fn mirror_safe(tags: Map<Seq<char>, Seq<char>>) -> bool {
    ||| passes_mirror(tags)
    ||| unsupported_error(tags) is Some
    ||| is_non_motorized(tags)
    ||| under_construction(tags)
}

/// Whether no lane of the list is a cycle lane.
pub open spec fn cycle_free(lanes: Seq<LaneBuilder>) -> bool {
    forall|i: int| 0 <= i < lanes.len() ==> !(#[trigger] lanes[i]).is_for(Designated::Bicycle)
}

/// Whether each lane of `later` is the lane of `earlier` at its place, as
/// it was or reserved for buses.
pub open spec fn bus_marks_only(earlier: Seq<LaneBuilder>, later: Seq<LaneBuilder>) -> bool {
    &&& earlier.len() == later.len()
    &&& forall|i: int|
        0 <= i < later.len() ==> (#[trigger] later[i]) == earlier[i] || later[i]
            == earlier[i].with_bus()
}

proof fn lemma_reversible_message_mirrors()
    ensures
        mirrored_msg(
            crate::transform::error::unimplemented_tag_message("oneway"@, "reversible"@),
        ) == crate::transform::error::unimplemented_tag_message("oneway"@, "reversible"@),
{
    lemma_plain_way_keys();
    let tags = Map::<Seq<char>, Seq<char>>::empty().insert("oneway"@, "reversible"@);
    assert forall|key: Seq<char>| mirror_tags(tags).contains_key(key) == tags.contains_key(
        key,
    ) by {
        crate::transform::sides::lemma_mirror_key_twice(key);
    }
    assert(mirror_tags(tags) =~= tags);
}

proof fn lemma_unsupported_mirrors(
    tags: Map<Seq<char>, Seq<char>>,
    other: Map<Seq<char>, Seq<char>>,
    first: Seq<RoadMsgView>,
    second: Seq<RoadMsgView>,
)
    requires
        say_the_same(first, second),
        forall|i: int|
            0 <= i < access_keys().len() ==> reads_alike(tags, other, #[trigger] access_keys()[i]),
        reads_alike(tags, other, "oneway"@),
        restricts_alike(tags, other, access_keys()),
    ensures
        say_the_same(unsupported_warnings(tags, first), unsupported_warnings(other, second)),
        unsupported_error(other) == match unsupported_error(tags) {
            Some(error) => Some(mirrored_error(error)),
            None => None,
        },
{
    lemma_reversible_message_mirrors();
    lemma_mirrored_push(
        first,
        crate::transform::error::message(
            crate::transform::error::MsgKind::Unimplemented,
            "access"@,
            tags.restrict(access_keys().to_set()),
        ),
    );
    if restricts_access(tags) {
        let i = choose|i: int|
            0 <= i < access_keys().len() && tags.contains_key(#[trigger] access_keys()[i]);
        assert(reads_alike(tags, other, access_keys()[i]));
        assert(other.contains_key(access_keys()[i]));
    }
    if restricts_access(other) {
        let i = choose|i: int|
            0 <= i < access_keys().len() && other.contains_key(#[trigger] access_keys()[i]);
        assert(reads_alike(tags, other, access_keys()[i]));
        assert(tags.contains_key(access_keys()[i]));
    }
}

proof fn lemma_start_mirrors(tags: Map<Seq<char>, Seq<char>>, other: Map<Seq<char>, Seq<char>>)
    requires
        reads_alike(tags, other, "highway"@),
        reads_alike(tags, other, "oneway"@),
        reads_alike(tags, other, "junction"@),
    ensures
        empty_road(other) == empty_road(tags),
{
}

proof fn lemma_non_motorized_mirrors(
    tags: Map<Seq<char>, Seq<char>>,
    other: Map<Seq<char>, Seq<char>>,
    road: RoadBuilderView,
    first: Seq<RoadMsgView>,
    second: Seq<RoadMsgView>,
)
    requires
        say_the_same(first, second),
        reads_alike(tags, other, "highway"@),
        reads_alike(tags, other, "bicycle"@),
        reads_alike(tags, other, "oneway"@),
        reads_alike(tags, other, "foot"@),
        restricts_alike(tags, other, seq!["highway"@]),
    ensures
        is_non_motorized(other) == is_non_motorized(tags),
        non_motorized_road(other, road) == non_motorized_road(tags, road),
        say_the_same(non_motorized_warnings(tags, first), non_motorized_warnings(other, second)),
{
    lemma_mirrored_push(
        first,
        crate::transform::error::message(
            crate::transform::error::MsgKind::Unimplemented,
            "highway is steps, but lane is only a sidewalk"@,
            tags.restrict(seq!["highway"@].to_set()),
        ),
    );
}

proof fn lemma_driving_mirrors(
    tags: Map<Seq<char>, Seq<char>>,
    other: Map<Seq<char>, Seq<char>>,
    road: RoadBuilderView,
    first: Seq<RoadMsgView>,
    second: Seq<RoadMsgView>,
)
    requires
        say_the_same(first, second),
        reads_alike(tags, other, "lanes"@),
        reads_alike(tags, other, "lanes:forward"@),
        reads_alike(tags, other, "lanes:backward"@),
        reads_alike(tags, other, "lanes:both_ways"@),
        reads_alike(tags, other, "centre_turn_lane"@),
        reads_alike(tags, other, "access"@),
        reads_alike(tags, other, "bus"@),
        reads_alike(tags, other, "psv"@),
        reads_alike(tags, other, "motor_vehicle:conditional"@),
        reads_alike(tags, other, "highway"@),
        restricts_alike(tags, other, crate::transform::driving::lane_count_keys()),
    ensures
        with_driving_lanes(other, road) == with_driving_lanes(tags, road),
        under_construction(other) == under_construction(tags),
        say_the_same(
            counting_warnings(tags, road.oneway.holds(), first),
            counting_warnings(other, road.oneway.holds(), second),
        ),
{
    let oneway = road.oneway.holds();
    lemma_mirrored_push(
        first,
        crate::transform::error::message(
            crate::transform::error::MsgKind::Ambiguous,
            "lane counts do not add up"@,
            tags.restrict(crate::transform::driving::lane_count_keys().to_set()),
        ),
    );
    assert(crate::transform::driving::counts_doubtful(other, oneway)
        == crate::transform::driving::counts_doubtful(tags, oneway));
    assert(crate::transform::driving::forward_count(other, oneway)
        == crate::transform::driving::forward_count(tags, oneway));
    assert(crate::transform::driving::backward_count(other, oneway)
        == crate::transform::driving::backward_count(tags, oneway));
    assert(crate::transform::driving::bus_only(other) == crate::transform::driving::bus_only(
        tags,
    ));
    assert(crate::transform::driving::driving_lanes(
        other,
        crate::road::Direction::Forward,
        crate::transform::driving::forward_count(other, oneway),
        road.highway,
    ) =~= crate::transform::driving::driving_lanes(
        tags,
        crate::road::Direction::Forward,
        crate::transform::driving::forward_count(tags, oneway),
        road.highway,
    ));
    assert(crate::transform::driving::driving_lanes(
        other,
        crate::road::Direction::Backward,
        crate::transform::driving::backward_count(other, oneway),
        road.highway,
    ) =~= crate::transform::driving::driving_lanes(
        tags,
        crate::road::Direction::Backward,
        crate::transform::driving::backward_count(tags, oneway),
        road.highway,
    ));
}

proof fn lemma_marked_alike(first: Outcome, second: Outcome, side: RoadSide, innermost: bool)
    requires
        same_outcome(first, second),
    ensures
        same_outcome(
            bus_lane_marked(first, side, innermost),
            bus_lane_marked(second, side, innermost),
        ),
{
    lemma_plain_message_mirrors(
        crate::transform::error::MsgKind::Unsupported,
        crate::transform::modes::bus::no_lanes_for_busway(side),
    );
}

proof fn lemma_busway_mirrors(
    tags: Map<Seq<char>, Seq<char>>,
    other: Map<Seq<char>, Seq<char>>,
    locale: Locale,
    road: RoadBuilderView,
    first: Seq<RoadMsgView>,
    second: Seq<RoadMsgView>,
)
    requires
        say_the_same(first, second),
        reads_alike(tags, other, "busway"@),
        reads_alike(tags, other, key_join("busway"@, "both"@)),
        reads_alike(tags, other, "oneway"@),
        reads_alike(tags, other, "oneway:bus"@),
        reads_across(
            tags,
            other,
            key_join("busway"@, side_name(locale.driving_side)),
            key_join("busway"@, side_name(locale.driving_side.flipped())),
        ),
        reads_across(
            tags,
            other,
            key_join("busway"@, side_name(locale.driving_side.flipped())),
            key_join("busway"@, side_name(locale.driving_side)),
        ),
    ensures
        same_outcome(
            busway_outcome(tags, locale, road, first),
            busway_outcome(other, locale.mirrored(), road, second),
        ),
{
    let oneway = oneway_for_buses(tags);
    assert(oneway_for_buses(other) == oneway);
    lemma_plain_message_mirrors(
        crate::transform::error::MsgKind::Ambiguous,
        "busway:both=lane for oneway roads"@,
    );
    lemma_plain_message_mirrors(
        crate::transform::error::MsgKind::Ambiguous,
        "busway:BACKWARD=lane for bidirectional roads"@,
    );
    let a0 = Outcome::passed(road, first);
    let b0 = Outcome::passed(road, second);
    lemma_marked_alike(a0, b0, RoadSide::Forward, false);
    let a = bus_lane_marked(a0, RoadSide::Forward, false);
    let b = bus_lane_marked(b0, RoadSide::Forward, false);
    lemma_marked_alike(a, b, RoadSide::Backward, false);
    let lane = tag_is(tags, "busway"@, "lane"@);
    assert(tag_is(other, "busway"@, "lane"@) == lane);
    let a1 = if lane {
        if !oneway {
            bus_lane_marked(a, RoadSide::Backward, false)
        } else {
            a
        }
    } else {
        a0
    };
    let b1 = if lane {
        if !oneway {
            bus_lane_marked(b, RoadSide::Backward, false)
        } else {
            b
        }
    } else {
        b0
    };
    assert(same_outcome(a1, b1));
    lemma_marked_alike(a1, b1, RoadSide::Backward, false);
    let opposite = tag_is(tags, "busway"@, "opposite_lane"@);
    assert(tag_is(other, "busway"@, "opposite_lane"@) == opposite);
    let a2 = if opposite {
        bus_lane_marked(a1, RoadSide::Backward, false)
    } else {
        a1
    };
    let b2 = if opposite {
        bus_lane_marked(b1, RoadSide::Backward, false)
    } else {
        b1
    };
    assert(same_outcome(a2, b2));
    lemma_marked_alike(a2, b2, RoadSide::Forward, false);
    let c = bus_lane_marked(a2, RoadSide::Forward, false);
    let d = bus_lane_marked(b2, RoadSide::Forward, false);
    lemma_marked_alike(c, d, RoadSide::Backward, false);
    let e = bus_lane_marked(c, RoadSide::Backward, false);
    let f = bus_lane_marked(d, RoadSide::Backward, false);
    let both = tag_is(tags, key_join("busway"@, "both"@), "lane"@);
    assert(tag_is(other, key_join("busway"@, "both"@), "lane"@) == both);
    let a3 = if both {
        e
    } else {
        a2
    };
    let b3 = if both {
        f
    } else {
        b2
    };
    assert(same_outcome(a3, b3));
    lemma_marked_alike(a3, b3, RoadSide::Forward, false);
    let near = tag_is(tags, key_join("busway"@, side_name(locale.driving_side)), "lane"@);
    assert(tag_is(
        other,
        key_join("busway"@, side_name(locale.mirrored().driving_side)),
        "lane"@,
    ) == near);
    let a4 = if near {
        bus_lane_marked(a3, RoadSide::Forward, false)
    } else {
        a3
    };
    let b4 = if near {
        bus_lane_marked(b3, RoadSide::Forward, false)
    } else {
        b3
    };
    assert(same_outcome(a4, b4));
    lemma_marked_alike(a4, b4, RoadSide::Forward, true);
    let far = tag_is(tags, key_join("busway"@, side_name(locale.driving_side.flipped())), "lane"@);
    assert(tag_is(
        other,
        key_join("busway"@, side_name(locale.mirrored().driving_side.flipped())),
        "lane"@,
    ) == far);
    assert(both_sides_on_oneway(other) == both_sides_on_oneway(tags));
    assert(busway_marked(tags, locale, road, first) == if far {
        if oneway {
            bus_lane_marked(a4, RoadSide::Forward, true)
        } else {
            busway_ambiguous(a4, "busway:BACKWARD=lane for bidirectional roads"@)
        }
    } else {
        a4
    });
    assert(busway_marked(other, locale.mirrored(), road, second) == if far {
        if oneway {
            bus_lane_marked(b4, RoadSide::Forward, true)
        } else {
            busway_ambiguous(b4, "busway:BACKWARD=lane for bidirectional roads"@)
        }
    } else {
        b4
    });
}

proof fn lemma_bus_lanes_mirror(
    tags: Map<Seq<char>, Seq<char>>,
    other: Map<Seq<char>, Seq<char>>,
    road: RoadBuilderView,
)
    requires
        reads_alike(tags, other, "bus:lanes:forward"@),
        reads_alike(tags, other, "psv:lanes:forward"@),
        reads_alike(tags, other, "bus:lanes"@),
        reads_alike(tags, other, "psv:lanes"@),
        reads_alike(tags, other, "bus:lanes:backward"@),
        reads_alike(tags, other, "psv:lanes:backward"@),
    ensures
        bus_lanes_road(other, road) == bus_lanes_road(tags, road),
{
}

proof fn lemma_bus_mirrors(
    tags: Map<Seq<char>, Seq<char>>,
    other: Map<Seq<char>, Seq<char>>,
    locale: Locale,
    road: RoadBuilderView,
    first: Seq<RoadMsgView>,
    second: Seq<RoadMsgView>,
)
    requires
        say_the_same(first, second),
        has_subtree(other, "busway"@) == has_subtree(tags, "busway"@),
        has_subtree(other, "lanes:bus"@) == has_subtree(tags, "lanes:bus"@),
        has_subtree(other, "lanes:psv"@) == has_subtree(tags, "lanes:psv"@),
        has_subtree(other, "bus:lanes"@) == has_subtree(tags, "bus:lanes"@),
        has_subtree(other, "psv:lanes"@) == has_subtree(tags, "psv:lanes"@),
        same_outcome(
            busway_outcome(tags, locale, road, first),
            busway_outcome(other, locale.mirrored(), road, second),
        ),
        bus_lanes_road(other, road) == bus_lanes_road(tags, road),
        restricts_alike(tags, other, crate::transform::modes::bus::lanes_bus_keys()),
    ensures
        same_outcome(
            bus_outcome(tags, locale, road, first),
            bus_outcome(other, locale.mirrored(), road, second),
        ),
{
    lemma_plain_message_mirrors(
        crate::transform::error::MsgKind::Unsupported,
        "more than one bus lanes scheme used"@,
    );
    lemma_mirrored_push(
        first,
        crate::transform::error::message(
            crate::transform::error::MsgKind::Unimplemented,
            "lanes:bus"@,
            tags.restrict(crate::transform::modes::bus::lanes_bus_keys().to_set()),
        ),
    );
}

proof fn lemma_marked_keeps_marks(base: RoadBuilderView, o: Outcome, side: RoadSide, innermost: bool)
    requires
        bus_marks_only(base.forward, o.road.forward),
        bus_marks_only(base.backward, o.road.backward),
    ensures
        bus_marks_only(base.forward, bus_lane_marked(o, side, innermost).road.forward),
        bus_marks_only(base.backward, bus_lane_marked(o, side, innermost).road.backward),
{
    let after = bus_lane_marked(o, side, innermost).road;
    assert forall|i: int| 0 <= i < after.forward.len() implies (#[trigger] after.forward[i])
        == base.forward[i] || after.forward[i] == base.forward[i].with_bus() by {
        assert(o.road.forward[i] == base.forward[i] || o.road.forward[i]
            == base.forward[i].with_bus());
    }
    assert forall|i: int| 0 <= i < after.backward.len() implies (#[trigger] after.backward[i])
        == base.backward[i] || after.backward[i] == base.backward[i].with_bus() by {
        assert(o.road.backward[i] == base.backward[i] || o.road.backward[i]
            == base.backward[i].with_bus());
    }
}

/// The busway scheme changes lanes only by reserving them for buses.
pub proof fn lemma_busway_marks_only(
    tags: Map<Seq<char>, Seq<char>>,
    locale: Locale,
    road: RoadBuilderView,
    warnings: Seq<RoadMsgView>,
)
    ensures
        bus_marks_only(road.forward, busway_outcome(tags, locale, road, warnings).road.forward),
        bus_marks_only(road.backward, busway_outcome(tags, locale, road, warnings).road.backward),
{
    let oneway = oneway_for_buses(tags);
    let o0 = Outcome::passed(road, warnings);
    let a = bus_lane_marked(o0, RoadSide::Forward, false);
    lemma_marked_keeps_marks(road, o0, RoadSide::Forward, false);
    lemma_marked_keeps_marks(road, a, RoadSide::Backward, false);
    let o1 = if tag_is(tags, "busway"@, "lane"@) {
        if !oneway {
            bus_lane_marked(a, RoadSide::Backward, false)
        } else {
            a
        }
    } else {
        o0
    };
    lemma_marked_keeps_marks(road, o1, RoadSide::Backward, false);
    let o2 = if tag_is(tags, "busway"@, "opposite_lane"@) {
        bus_lane_marked(o1, RoadSide::Backward, false)
    } else {
        o1
    };
    let b = bus_lane_marked(o2, RoadSide::Forward, false);
    lemma_marked_keeps_marks(road, o2, RoadSide::Forward, false);
    let c = bus_lane_marked(b, RoadSide::Backward, false);
    lemma_marked_keeps_marks(road, b, RoadSide::Backward, false);
    let o3 = if tag_is(tags, key_join("busway"@, "both"@), "lane"@) {
        c
    } else {
        o2
    };
    lemma_marked_keeps_marks(road, o3, RoadSide::Forward, false);
    let o4 = if tag_is(tags, key_join("busway"@, side_name(locale.driving_side)), "lane"@) {
        bus_lane_marked(o3, RoadSide::Forward, false)
    } else {
        o3
    };
    lemma_marked_keeps_marks(road, o4, RoadSide::Forward, true);
}

/// The bus pass adds no cycle lane.
pub proof fn lemma_bus_adds_no_cycle_lane(
    tags: Map<Seq<char>, Seq<char>>,
    locale: Locale,
    road: RoadBuilderView,
    warnings: Seq<RoadMsgView>,
)
    requires
        cycle_free(road.forward),
        cycle_free(road.backward),
    ensures
        cycle_free(bus_outcome(tags, locale, road, warnings).road.forward),
        cycle_free(bus_outcome(tags, locale, road, warnings).road.backward),
{
    lemma_busway_marks_only(tags, locale, road, warnings);
    let by_lane = bus_lanes_road(tags, road);
    assert(bus_marks_only(road.forward, by_lane.forward));
    assert(bus_marks_only(road.backward, by_lane.backward));
    let after = bus_outcome(tags, locale, road, warnings).road;
    assert(bus_marks_only(road.forward, after.forward));
    assert(bus_marks_only(road.backward, after.backward));
    assert forall|i: int| 0 <= i < after.forward.len() implies !(#[trigger] after.forward[i]).is_for(
        Designated::Bicycle,
    ) by {
        assert(!road.forward[i].is_for(Designated::Bicycle));
    }
    assert forall|i: int| 0 <= i < after.backward.len() implies !(
    #[trigger] after.backward[i]).is_for(Designated::Bicycle) by {
        assert(!road.backward[i].is_for(Designated::Bicycle));
    }
}

/// The driving lanes of a road are no cycle lanes.
pub proof fn lemma_driving_adds_no_cycle_lane(
    tags: Map<Seq<char>, Seq<char>>,
    road: RoadBuilderView,
)
    requires
        cycle_free(road.forward),
        cycle_free(road.backward),
    ensures
        cycle_free(with_driving_lanes(tags, road).forward),
        cycle_free(with_driving_lanes(tags, road).backward),
{
    let after = with_driving_lanes(tags, road);
    assert forall|i: int| 0 <= i < after.backward.len() implies !(
    #[trigger] after.backward[i]).is_for(Designated::Bicycle) by {
        if i < road.backward.len() {
            assert(!road.backward[i].is_for(Designated::Bicycle));
        }
    }
    assert forall|i: int| 0 <= i < after.forward.len() implies !(#[trigger] after.forward[i]).is_for(
        Designated::Bicycle,
    ) by {
        let shift: int = if crate::transform::driving::has_centre_turn_lane(tags) {
            1
        } else {
            0
        };
        if shift <= i < road.forward.len() + shift {
            assert(!road.forward[i - shift].is_for(Designated::Bicycle));
        }
    }
}

/// Where the cycleway tags add no lane and the road has no cycle lane, the
/// bicycle pass leaves everything as it is.
pub proof fn lemma_bicycle_idle(
    tags: Map<Seq<char>, Seq<char>>,
    locale: Locale,
    road: RoadBuilderView,
    warnings: Seq<RoadMsgView>,
)
    requires
        !adds_cycle_lanes(tags),
        cycle_free(road.forward),
        cycle_free(road.backward),
    ensures
        bicycle_outcome(tags, locale, road, warnings) == Outcome::passed(road, warnings),
{
    lemma_first_for(road.forward, Designated::Bicycle, road.forward.len() as int);
    lemma_first_for(road.backward, Designated::Bicycle, road.backward.len() as int);
    assert(with_separation(tags, road) == road);
    match locale.driving_side {
        DrivingSide::Right => {},
        DrivingSide::Left => {},
    }
}

proof fn lemma_parking_mirrors(
    tags: Map<Seq<char>, Seq<char>>,
    other: Map<Seq<char>, Seq<char>>,
    road: RoadBuilderView,
)
    requires
        parks_forward(tags) == parks_backward(tags),
        reads_alike(tags, other, "parking:lane:both"@),
        reads_across(tags, other, "parking:lane:left"@, "parking:lane:right"@),
        reads_across(tags, other, "parking:lane:right"@, "parking:lane:left"@),
    ensures
        with_parking(other, road) == with_parking(tags, road),
{
}

proof fn lemma_foot_and_shoulder_mirrors(
    tags: Map<Seq<char>, Seq<char>>,
    other: Map<Seq<char>, Seq<char>>,
    locale: Locale,
    road: RoadBuilderView,
)
    requires
        tag_is(other, "sidewalk"@, "both"@) == tag_is(tags, "sidewalk"@, "both"@),
        tag_is(other, "sidewalk"@, "separate"@) == tag_is(tags, "sidewalk"@, "separate"@),
        tag_is(other, "sidewalk"@, "left"@) == tag_is(tags, "sidewalk"@, "right"@),
        tag_is(other, "sidewalk"@, "right"@) == tag_is(tags, "sidewalk"@, "left"@),
        reads_alike(tags, other, "highway"@),
        reads_alike(tags, other, "foot"@),
        reads_alike(tags, other, "access"@),
        reads_alike(tags, other, "motorroad"@),
        reads_alike(tags, other, "oneway"@),
    ensures
        with_foot_and_shoulder(other, locale.mirrored(), road) == with_foot_and_shoulder(
            tags,
            locale,
            road,
        ),
{
    reveal_strlit("left");
    reveal_strlit("right");
    assert("left"@.len() == 4);
    assert("right"@.len() == 5);
    assert(!(tag_is(tags, "sidewalk"@, "left"@) && tag_is(tags, "sidewalk"@, "right"@)));
    assert(crate::transform::modes::foot_shoulder::with_sidewalks(other, locale.mirrored(), road)
        == crate::transform::modes::foot_shoulder::with_sidewalks(tags, locale, road));
    assert(crate::transform::modes::foot_shoulder::shoulders_ruled_out(other)
        == crate::transform::modes::foot_shoulder::shoulders_ruled_out(tags));
}

/// The mirrored tags say of sidewalks what the tags say, with left and
/// right changed.
pub proof fn lemma_sidewalk_mirrors(tags: Map<Seq<char>, Seq<char>>)
    ensures
        tag_is(mirror_tags(tags), "sidewalk"@, "both"@) == tag_is(tags, "sidewalk"@, "both"@),
        tag_is(mirror_tags(tags), "sidewalk"@, "separate"@) == tag_is(
            tags,
            "sidewalk"@,
            "separate"@,
        ),
        tag_is(mirror_tags(tags), "sidewalk"@, "left"@) == tag_is(tags, "sidewalk"@, "right"@),
        tag_is(mirror_tags(tags), "sidewalk"@, "right"@) == tag_is(tags, "sidewalk"@, "left"@),
{
    lemma_sided_keys_are_not_sidewalk();
    reveal_strlit("both");
    reveal_strlit("separate");
    reveal_strlit("left");
    reveal_strlit("right");
    assert("both"@.len() == 4);
    assert("separate"@.len() == 8);
    assert("left"@.len() == 4);
    assert("right"@.len() == 5);
    assert("both"@[0] != "left"@[0]);
    assert(crate::transform::sides::mirror_key("sidewalk"@) == "sidewalk"@);
}

/// What the mirrored tags hold under the keys that name a side.
pub proof fn lemma_sided_reads(tags: Map<Seq<char>, Seq<char>>, locale: Locale)
    ensures
        reads_across(
            tags,
            mirror_tags(tags),
            key_join("busway"@, side_name(locale.driving_side)),
            key_join("busway"@, side_name(locale.driving_side.flipped())),
        ),
        reads_across(
            tags,
            mirror_tags(tags),
            key_join("busway"@, side_name(locale.driving_side.flipped())),
            key_join("busway"@, side_name(locale.driving_side)),
        ),
        reads_across(tags, mirror_tags(tags), "parking:lane:left"@, "parking:lane:right"@),
        reads_across(tags, mirror_tags(tags), "parking:lane:right"@, "parking:lane:left"@),
        reads_across(
            tags,
            mirror_tags(tags),
            cycleway_key(Some(WaySide::Left)),
            cycleway_key(Some(WaySide::Right)),
        ),
        reads_across(
            tags,
            mirror_tags(tags),
            cycleway_key(Some(WaySide::Right)),
            cycleway_key(Some(WaySide::Left)),
        ),
        reads_alike(tags, mirror_tags(tags), cycleway_key(Some(WaySide::Both))),
        reads_alike(tags, mirror_tags(tags), key_join("busway"@, "both"@)),
{
    lemma_joined_keys();
    lemma_sided_keys_are_not_sidewalk();
    lemma_plain_bus_keys();
    lemma_plain_cycle_keys();
    crate::transform::sides::lemma_mirror_table();
    let other = mirror_tags(tags);
    lemma_across(tags, "busway:left"@, "busway:right"@);
    lemma_across(tags, "busway:right"@, "busway:left"@);
    lemma_across(tags, "parking:lane:left"@, "parking:lane:right"@);
    lemma_across(tags, "parking:lane:right"@, "parking:lane:left"@);
    lemma_across(tags, "cycleway:left"@, "cycleway:right"@);
    lemma_across(tags, "cycleway:right"@, "cycleway:left"@);
    lemma_plain(tags, "cycleway:both"@);
    lemma_plain(tags, "busway:both"@);
    match locale.driving_side {
        DrivingSide::Right => {},
        DrivingSide::Left => {},
    }
}

/// Tags that add no cycle lane add none in the mirror either.
pub proof fn lemma_adds_cycle_lanes_mirrors(tags: Map<Seq<char>, Seq<char>>)
    ensures
        adds_cycle_lanes(mirror_tags(tags)) == adds_cycle_lanes(tags),
{
    lemma_sided_reads(tags, Locale { driving_side: DrivingSide::Right, inferred_sidewalks: true });
    lemma_plain_cycle_keys();
    lemma_plain(tags, "cycleway"@);
}

proof fn lemma_lanes_bus_keys_closed()
    ensures
        closed_under_mirror(crate::transform::modes::bus::lanes_bus_keys().to_set()),
{
    let keys = crate::transform::modes::bus::lanes_bus_keys();
    crate::transform::sides::lemma_plain_counted_bus_keys();
    crate::transform::sides::lemma_mirror_table();
    assert(keys[0] == "lanes:psv"@);
    assert(keys[1] == "lanes:psv:forward"@);
    assert(keys[2] == "lanes:psv:backward"@);
    assert(keys[3] == "lanes:psv:left"@);
    assert(keys[4] == "lanes:psv:right"@);
    assert(keys[5] == "lanes:bus"@);
    assert(keys[6] == "lanes:bus:forward"@);
    assert(keys[7] == "lanes:bus:backward"@);
    assert(keys[8] == "lanes:bus:left"@);
    assert(keys[9] == "lanes:bus:right"@);
    assert forall|key: Seq<char>| #[trigger] keys.to_set().contains(key) implies keys.to_set().contains(
        mirror_key(key),
    ) by {
        let i = choose|i: int| 0 <= i < keys.len() && keys[i] == key;
        if i == 3 {
            assert(keys[4] == mirror_key(key));
        } else if i == 4 {
            assert(keys[3] == mirror_key(key));
        } else if i == 8 {
            assert(keys[9] == mirror_key(key));
        } else if i == 9 {
            assert(keys[8] == mirror_key(key));
        } else {
            assert(keys[i] == mirror_key(key));
        }
    }
    lemma_closed_under_mirror(keys.to_set());
}

proof fn lemma_mode_passes_mirror(
    tags: Map<Seq<char>, Seq<char>>,
    locale: Locale,
    road: RoadBuilderView,
    first: Seq<RoadMsgView>,
    second: Seq<RoadMsgView>,
)
    requires
        passes_mirror(tags),
        say_the_same(first, second),
        cycle_free(road.forward),
        cycle_free(road.backward),
    ensures
        same_outcome(
            after_mode_passes(tags, locale, road, first),
            after_mode_passes(mirror_tags(tags), locale.mirrored(), road, second),
        ),
{
    let other = mirror_tags(tags);
    let there = locale.mirrored();
    lemma_plain_way_keys();
    lemma_plain_bus_keys();
    lemma_plain_cycle_keys();
    lemma_plain(tags, "highway"@);
    lemma_plain(tags, "oneway"@);
    lemma_plain(tags, "foot"@);
    lemma_plain(tags, "access"@);
    lemma_plain(tags, "motorroad"@);
    lemma_plain(tags, "busway"@);
    lemma_plain(tags, "oneway:bus"@);
    lemma_plain(tags, "bus:lanes:forward"@);
    lemma_plain(tags, "psv:lanes:forward"@);
    lemma_plain(tags, "bus:lanes"@);
    lemma_plain(tags, "psv:lanes"@);
    lemma_plain(tags, "bus:lanes:backward"@);
    lemma_plain(tags, "psv:lanes:backward"@);
    lemma_plain(tags, "parking:lane:both"@);
    lemma_subtrees_mirror(tags);
    lemma_sided_reads(tags, locale);
    lemma_sidewalk_mirrors(tags);
    lemma_adds_cycle_lanes_mirrors(tags);
    lemma_lanes_bus_keys_closed();
    lemma_restrict_mirrors(tags, crate::transform::modes::bus::lanes_bus_keys());
    lemma_busway_mirrors(tags, other, locale, road, first, second);
    lemma_bus_lanes_mirror(tags, other, road);
    lemma_bus_mirrors(tags, other, locale, road, first, second);
    let buses = bus_outcome(tags, locale, road, first);
    let buses_there = bus_outcome(other, there, road, second);
    lemma_bus_adds_no_cycle_lane(tags, locale, road, first);
    lemma_bicycle_idle(tags, locale, buses.road, buses.warnings);
    lemma_bicycle_idle(other, there, buses_there.road, buses_there.warnings);
    lemma_parking_mirrors(tags, other, buses.road);
    lemma_foot_and_shoulder_mirrors(tags, other, locale, with_parking(tags, buses.road));
}

/// The mirrored tags, read under the other driving side, give the same
/// road before its sides are put together, stop the inference with the same
/// error, and give warnings that say the same.
pub proof fn lemma_inference_mirrors(
    tags: Map<Seq<char>, Seq<char>>,
    locale: Locale,
    first: Seq<RoadMsgView>,
    second: Seq<RoadMsgView>,
)
    requires
        mirror_safe(tags),
        say_the_same(first, second),
    ensures
        same_outcome(
            inferred_road(tags, locale, first),
            inferred_road(mirror_tags(tags), locale.mirrored(), second),
        ),
{
    let other = mirror_tags(tags);
    let there = locale.mirrored();
    lemma_plain_way_keys();
    lemma_plain_count_keys();
    lemma_plain(tags, "highway"@);
    lemma_plain(tags, "oneway"@);
    lemma_plain(tags, "junction"@);
    lemma_plain(tags, "foot"@);
    lemma_plain(tags, "bicycle"@);
    lemma_plain(tags, "access"@);
    lemma_plain(tags, "bus"@);
    lemma_plain(tags, "psv"@);
    lemma_plain(tags, "motor_vehicle:conditional"@);
    lemma_plain(tags, "lanes"@);
    lemma_plain(tags, "lanes:forward"@);
    lemma_plain(tags, "lanes:backward"@);
    lemma_plain(tags, "lanes:both_ways"@);
    lemma_plain(tags, "centre_turn_lane"@);
    lemma_access_keys_plain();
    assert forall|i: int| 0 <= i < access_keys().len() implies reads_alike(
        tags,
        other,
        #[trigger] access_keys()[i],
    ) by {
        lemma_plain(tags, access_keys()[i]);
    }
    lemma_plain_keys_closed(access_keys());
    lemma_restrict_mirrors(tags, access_keys());
    assert(crate::transform::sides::plain(seq!["highway"@][0]));
    lemma_plain_keys_closed(seq!["highway"@]);
    lemma_restrict_mirrors(tags, seq!["highway"@]);
    assert forall|i: int|
        0 <= i < crate::transform::driving::lane_count_keys().len() implies crate::transform::sides::plain(
        #[trigger] crate::transform::driving::lane_count_keys()[i],
    ) by {
        let keys = crate::transform::driving::lane_count_keys();
        assert(keys[0] == "lanes"@);
        assert(keys[1] == "lanes:forward"@);
        assert(keys[2] == "lanes:backward"@);
        assert(keys[3] == "lanes:both_ways"@);
    }
    lemma_plain_keys_closed(crate::transform::driving::lane_count_keys());
    lemma_restrict_mirrors(tags, crate::transform::driving::lane_count_keys());
    lemma_unsupported_mirrors(tags, other, first, second);
    lemma_start_mirrors(tags, other);
    let road = empty_road(tags);
    let checked = unsupported_warnings(tags, first);
    let checked_there = unsupported_warnings(other, second);
    lemma_non_motorized_mirrors(tags, other, road, checked, checked_there);
    lemma_driving_mirrors(tags, other, road, checked, checked_there);
    lemma_driving_adds_no_cycle_lane(tags, road);
    if passes_mirror(tags) {
        lemma_mode_passes_mirror(
            tags,
            locale,
            with_driving_lanes(tags, road),
            counting_warnings(tags, road.oneway.holds(), checked),
            counting_warnings(other, road.oneway.holds(), checked_there),
        );
    }
}

/// Mirror symmetry. Take tags that add no cycle lane and that put parking
/// lanes on both sides or on none, or tags for which the passes for
/// bicycles and parking do not run. Then the mirrored tags, read under the
/// other driving side, give the mirrored result: the same lanes in reverse
/// order, with the markings of every separator flipped, and the same
/// warnings or the same error, each about the mirrored tags.
pub proof fn lemma_mirror_symmetry(tags: Map<Seq<char>, Seq<char>>, locale: Locale, config: Config)
    requires
        mirror_safe(tags),
    ensures
        road_from_tags(mirror_tags(tags), locale.mirrored(), config) == mirrored_result(
            road_from_tags(tags, locale, config),
        ),
{
    let nothing = Seq::<RoadMsgView>::empty();
    assert(mirrored_msgs(nothing) =~= nothing);
    lemma_inference_mirrors(tags, locale, nothing, nothing);
    let here = inferred_road(tags, locale, nothing);
    lemma_lanes_mirror(here.road, locale, config.include_separators);
    lemma_plain_message_mirrors(crate::transform::error::MsgKind::Unsupported, "no lanes"@);
}

} // verus!
