use vstd::prelude::*;
use crate::locale::{side_name, Locale};
use crate::road::Direction;
use crate::tag::{has_subtree, key_join, str_views, tag_get, tag_is, TagKey, Tags};
use crate::text::{piece_views, same_chars, split, split_on, to_chars};
use crate::transform::builder::{LaneBuilder, Outcome, RoadBuilder, RoadBuilderView};
use crate::transform::error::{message, plain_message, MsgKind, RoadError, RoadMsg, RoadMsgView, RoadWarnings};
use crate::transform::infer::Infer;
use crate::transform::oneway::Oneway;

verus! {

/// Which side of the road a step of the busway scheme works on.
#[derive(Clone, Copy, Debug, PartialEq, Eq, Structural)]
pub enum RoadSide {
    Forward,
    Backward,
}

/// The lanes with the outermost one reserved for buses.
pub open spec fn bus_on_last(lanes: Seq<LaneBuilder>) -> Seq<LaneBuilder> {
    lanes.update(lanes.len() - 1, lanes.last().with_bus())
}

/// The lanes with the innermost one reserved for buses.
pub open spec fn bus_on_first(lanes: Seq<LaneBuilder>) -> Seq<LaneBuilder> {
    lanes.update(0, lanes[0].with_bus())
}

/// The lanes of one side of the road.
pub open spec fn side_lanes(road: RoadBuilderView, side: RoadSide) -> Seq<LaneBuilder> {
    match side {
        RoadSide::Forward => road.forward,
        RoadSide::Backward => road.backward,
    }
}

/// The road with other lanes on one side.
pub open spec fn with_side(
    road: RoadBuilderView,
    side: RoadSide,
    lanes: Seq<LaneBuilder>,
) -> RoadBuilderView {
    match side {
        RoadSide::Forward => road.with_forward(lanes),
        RoadSide::Backward => road.with_backward(lanes),
    }
}

/// What is said when a busway tag names a side that has no lanes.
pub open spec fn no_lanes_for_busway(side: RoadSide) -> Seq<char> {
    match side {
        RoadSide::Forward => "no forward lanes for busway"@,
        RoadSide::Backward => "no backward lanes for busway"@,
    }
}

/// One step of the busway scheme: the outermost lane of `side` (or, with
/// `innermost`, the innermost) is reserved for buses. The step stops the
/// pass if the side has no lanes, and does nothing once the pass has stopped.
pub open spec fn bus_lane_marked(o: Outcome, side: RoadSide, innermost: bool) -> Outcome {
    let lanes = side_lanes(o.road, side);
    if o.error is Some {
        o
    } else if lanes.len() == 0 {
        Outcome::stopped(
            o.road,
            o.warnings,
            plain_message(MsgKind::Unsupported, no_lanes_for_busway(side)),
        )
    } else {
        Outcome::passed(
            with_side(
                o.road,
                side,
                if innermost {
                    bus_on_first(lanes)
                } else {
                    bus_on_last(lanes)
                },
            ),
            o.warnings,
        )
    }
}

/// One step of the busway scheme: the pass stops because the tags allow two
/// readings. The step does nothing once the pass has stopped.
pub open spec fn busway_ambiguous(o: Outcome, description: Seq<char>) -> Outcome {
    if o.error is Some {
        o
    } else {
        Outcome::stopped(o.road, o.warnings, plain_message(MsgKind::Ambiguous, description))
    }
}

/// Whether the tags make the way a oneway for buses.
pub open spec fn oneway_for_buses(tags: Map<Seq<char>, Seq<char>>) -> bool {
    tag_is(tags, "oneway"@, "yes"@) || tag_is(tags, "oneway:bus"@, "yes"@)
}

/// Whether the tags ask for a bus lane on both sides of a way that is a
/// oneway for buses, which allows two readings.
pub open spec fn both_sides_on_oneway(tags: Map<Seq<char>, Seq<char>>) -> bool {
    tag_is(tags, key_join("busway"@, "both"@), "lane"@) && oneway_for_buses(tags)
}

/// What the busway scheme leaves. `busway:both=lane` on a oneway is
/// ambiguous and stops the pass before any lane is touched. Otherwise
/// `busway=lane` reserves the outermost lane forward, and backward too
/// unless the way is a oneway for buses; `busway=opposite_lane` the
/// outermost lane backward; `busway:both=lane` both; `busway:<side>=lane` on
/// the driving side the outermost lane forward; on the other side, on a
/// oneway, the innermost lane forward, and on a two-way road it is
/// ambiguous.
pub open spec fn busway_outcome(
    tags: Map<Seq<char>, Seq<char>>,
    locale: Locale,
    road: RoadBuilderView,
    warnings: Seq<RoadMsgView>,
) -> Outcome {
    if both_sides_on_oneway(tags) {
        Outcome::stopped(
            road,
            warnings,
            plain_message(MsgKind::Ambiguous, "busway:both=lane for oneway roads"@),
        )
    } else {
        busway_marked(tags, locale, road, warnings)
    }
}

/// What the busway scheme leaves where `busway:both=lane` does not meet a
/// oneway.
pub open spec fn busway_marked(
    tags: Map<Seq<char>, Seq<char>>,
    locale: Locale,
    road: RoadBuilderView,
    warnings: Seq<RoadMsgView>,
) -> Outcome {
    let o = Outcome::passed(road, warnings);
    let o = if tag_is(tags, "busway"@, "lane"@) {
        let marked = bus_lane_marked(o, RoadSide::Forward, false);
        if !oneway_for_buses(tags) {
            bus_lane_marked(marked, RoadSide::Backward, false)
        } else {
            marked
        }
    } else {
        o
    };
    let o = if tag_is(tags, "busway"@, "opposite_lane"@) {
        bus_lane_marked(o, RoadSide::Backward, false)
    } else {
        o
    };
    let o = if tag_is(tags, key_join("busway"@, "both"@), "lane"@) {
        bus_lane_marked(bus_lane_marked(o, RoadSide::Forward, false), RoadSide::Backward, false)
    } else {
        o
    };
    let o = if tag_is(tags, key_join("busway"@, side_name(locale.driving_side)), "lane"@) {
        bus_lane_marked(o, RoadSide::Forward, false)
    } else {
        o
    };
    if tag_is(tags, key_join("busway"@, side_name(locale.driving_side.flipped())), "lane"@) {
        if oneway_for_buses(tags) {
            bus_lane_marked(o, RoadSide::Forward, true)
        } else {
            busway_ambiguous(o, "busway:BACKWARD=lane for bidirectional roads"@)
        }
    } else {
        o
    }
}

/// The keys of the scheme that counts bus lanes.
pub open spec fn lanes_bus_keys() -> Seq<Seq<char>> {
    seq![
        "lanes:psv"@,
        "lanes:psv:forward"@,
        "lanes:psv:backward"@,
        "lanes:psv:left"@,
        "lanes:psv:right"@,
        "lanes:bus"@,
        "lanes:bus:forward"@,
        "lanes:bus:backward"@,
        "lanes:bus:left"@,
        "lanes:bus:right"@,
    ]
}

/// What the scheme that counts bus lanes leaves: the road as it was, and a
/// warning that names the tags of the scheme.
pub open spec fn lanes_bus_outcome(
    tags: Map<Seq<char>, Seq<char>>,
    road: RoadBuilderView,
    warnings: Seq<RoadMsgView>,
) -> Outcome {
    Outcome::passed(
        road,
        warnings.push(
            message(MsgKind::Unimplemented, "lanes:bus"@, tags.restrict(lanes_bus_keys().to_set())),
        ),
    )
}

/// The per-lane bus values for the forward side: `bus:lanes:forward`, else
/// `psv:lanes:forward`, else, on a oneway, `bus:lanes`, else `psv:lanes`;
/// empty where none of them is there.
pub open spec fn forward_bus_values(tags: Map<Seq<char>, Seq<char>>, oneway: bool) -> Seq<char> {
    match tag_get(tags, "bus:lanes:forward"@) {
        Some(s) => s,
        None => match tag_get(tags, "psv:lanes:forward"@) {
            Some(s) => s,
            None => if oneway {
                match tag_get(tags, "bus:lanes"@) {
                    Some(s) => s,
                    None => match tag_get(tags, "psv:lanes"@) {
                        Some(s) => s,
                        None => Seq::empty(),
                    },
                }
            } else {
                Seq::empty()
            },
        },
    }
}

/// The per-lane bus values for the backward side: `bus:lanes:backward`, else
/// `psv:lanes:backward`.
pub open spec fn backward_bus_values(tags: Map<Seq<char>, Seq<char>>) -> Option<Seq<char>> {
    match tag_get(tags, "bus:lanes:backward"@) {
        Some(s) => Some(s),
        None => tag_get(tags, "psv:lanes:backward"@),
    }
}

/// How many lanes at the inner edge the per-lane values pass over: one, if
/// the innermost lane serves both directions.
pub open spec fn bus_offset(lanes: Seq<LaneBuilder>) -> int {
    if lanes.len() > 0 && lanes[0].direction.value() == Some(Direction::Both) {
        1
    } else {
        0
    }
}

/// The lanes with those reserved for buses whose value is `designated`. The
/// values are for the lanes after the first `offset`; if their number is
/// not the number of those lanes, nothing changes.
pub open spec fn bus_by_lane(
    lanes: Seq<LaneBuilder>,
    values: Seq<Seq<char>>,
    offset: int,
) -> Seq<LaneBuilder> {
    if values.len() == lanes.len() - offset {
        Seq::new(
            lanes.len(),
            |i: int|
                if i >= offset && values[i - offset] == "designated"@ {
                    lanes[i].with_bus()
                } else {
                    lanes[i]
                },
        )
    } else {
        lanes
    }
}

/// What the scheme with one value per lane leaves.
pub open spec fn bus_lanes_road(
    tags: Map<Seq<char>, Seq<char>>,
    road: RoadBuilderView,
) -> RoadBuilderView {
    let forward_values = forward_bus_values(tags, road.oneway.holds());
    let forward = if forward_values.len() > 0 {
        bus_by_lane(road.forward, split_on(forward_values, '|'), bus_offset(road.forward))
    } else {
        road.forward
    };
    let backward = match backward_bus_values(tags) {
        Some(values) => bus_by_lane(road.backward, split_on(values, '|'), 0),
        None => road.backward,
    };
    road.with_forward(forward).with_backward(backward)
}

/// Whether the tags use the busway scheme.
pub open spec fn uses_busway(tags: Map<Seq<char>, Seq<char>>) -> bool {
    has_subtree(tags, "busway"@)
}

/// Whether the tags use the scheme that counts bus lanes.
pub open spec fn uses_lanes_bus(tags: Map<Seq<char>, Seq<char>>) -> bool {
    has_subtree(tags, "lanes:bus"@) || has_subtree(tags, "lanes:psv"@)
}

/// Whether the tags use the scheme with one value per lane.
pub open spec fn uses_bus_lanes(tags: Map<Seq<char>, Seq<char>>) -> bool {
    has_subtree(tags, "bus:lanes"@) || has_subtree(tags, "psv:lanes"@)
}

/// Whether the tags use more than one scheme of bus tags.
pub open spec fn mixes_bus_schemes(tags: Map<Seq<char>, Seq<char>>) -> bool {
    ||| uses_busway(tags) && uses_lanes_bus(tags)
    ||| uses_busway(tags) && uses_bus_lanes(tags)
    ||| uses_lanes_bus(tags) && uses_bus_lanes(tags)
}

/// What the bus pass leaves. Tags of more than one scheme stop the pass,
/// with the road and the warnings as they were. Otherwise the one scheme
/// that the tags use is followed; without tags of any scheme the road stays
/// as it was.
pub open spec fn bus_outcome(
    tags: Map<Seq<char>, Seq<char>>,
    locale: Locale,
    road: RoadBuilderView,
    warnings: Seq<RoadMsgView>,
) -> Outcome {
    if mixes_bus_schemes(tags) {
        Outcome::stopped(
            road,
            warnings,
            plain_message(MsgKind::Unsupported, "more than one bus lanes scheme used"@),
        )
    } else if uses_bus_lanes(tags) {
        Outcome::passed(bus_lanes_road(tags, road), warnings)
    } else if uses_busway(tags) {
        busway_outcome(tags, locale, road, warnings)
    } else if uses_lanes_bus(tags) {
        lanes_bus_outcome(tags, road, warnings)
    } else {
        Outcome::passed(road, warnings)
    }
}

fn mark_bus_lane(road: &mut RoadBuilder, locale: &Locale, side: RoadSide, innermost: bool) -> (result:
    Result<(), RoadError>)
    ensures
        bus_lane_marked(Outcome::passed(old(road)@, Seq::empty()), side, innermost).met_by(
            final(road)@,
            Seq::empty(),
            result,
        ),
{
    match side {
        RoadSide::Forward => {
            let n = road.forward_lanes.len();
            if n == 0 {
                return Err(RoadError::unsupported_str("no forward lanes for busway"));
            }
            let at = if innermost {
                0
            } else {
                n - 1
            };
            let mut lane = road.forward_lanes[at];
            lane.set_bus(locale);
            road.forward_lanes.set(at, lane);
        },
        RoadSide::Backward => {
            let n = road.backward_lanes.len();
            if n == 0 {
                return Err(RoadError::unsupported_str("no backward lanes for busway"));
            }
            let at = if innermost {
                0
            } else {
                n - 1
            };
            let mut lane = road.backward_lanes[at];
            lane.set_bus(locale);
            road.backward_lanes.set(at, lane);
        },
    }
    Ok(())
}

fn bus_oneway(tags: &Tags) -> (held: bool)
    ensures
        held == oneway_for_buses(tags@),
{
    tags.is("oneway", "yes") || tags.is("oneway:bus", "yes")
}

/// Follows the busway scheme.
pub fn busway(tags: &Tags, locale: &Locale, road: &mut RoadBuilder, warnings: &mut RoadWarnings) -> (result:
    Result<(), RoadError>)
    ensures
        busway_outcome(tags@, *locale, old(road)@, old(warnings)@).met_by(
            final(road)@,
            final(warnings)@,
            result,
        ),
{
    let key = TagKey::from("busway");
    let both = tags.is(key.add("both").as_str(), "lane");
    if both && bus_oneway(tags) {
        return Err(RoadError::ambiguous_str("busway:both=lane for oneway roads"));
    }
    if tags.is("busway", "lane") {
        match mark_bus_lane(road, locale, RoadSide::Forward, false) {
            Err(e) => {
                return Err(e);
            },
            Ok(_) => {},
        }
        if !bus_oneway(tags) {
            match mark_bus_lane(road, locale, RoadSide::Backward, false) {
                Err(e) => {
                    return Err(e);
                },
                Ok(_) => {},
            }
        }
    }
    if tags.is("busway", "opposite_lane") {
        match mark_bus_lane(road, locale, RoadSide::Backward, false) {
            Err(e) => {
                return Err(e);
            },
            Ok(_) => {},
        }
    }
    if both {
        match mark_bus_lane(road, locale, RoadSide::Forward, false) {
            Err(e) => {
                return Err(e);
            },
            Ok(_) => {},
        }
        match mark_bus_lane(road, locale, RoadSide::Backward, false) {
            Err(e) => {
                return Err(e);
            },
            Ok(_) => {},
        }
    }
    if tags.is(key.add(locale.driving_side.as_str()).as_str(), "lane") {
        match mark_bus_lane(road, locale, RoadSide::Forward, false) {
            Err(e) => {
                return Err(e);
            },
            Ok(_) => {},
        }
    }
    if tags.is(key.add(locale.driving_side.opposite().as_str()).as_str(), "lane") {
        if bus_oneway(tags) {
            match mark_bus_lane(road, locale, RoadSide::Forward, true) {
                Err(e) => {
                    return Err(e);
                },
                Ok(_) => {},
            }
        } else {
            return Err(RoadError::ambiguous_str("busway:BACKWARD=lane for bidirectional roads"));
        }
    }
    Ok(())
}

/// Follows the scheme that counts bus lanes: it is not read yet.
pub fn lanes_bus(tags: &Tags, locale: &Locale, road: &mut RoadBuilder, warnings: &mut RoadWarnings) -> (result:
    Result<(), RoadError>)
    ensures
        lanes_bus_outcome(tags@, old(road)@, old(warnings)@).met_by(
            final(road)@,
            final(warnings)@,
            result,
        ),
{
    let keys = [
        "lanes:psv",
        "lanes:psv:forward",
        "lanes:psv:backward",
        "lanes:psv:left",
        "lanes:psv:right",
        "lanes:bus",
        "lanes:bus:forward",
        "lanes:bus:backward",
        "lanes:bus:left",
        "lanes:bus:right",
    ];
    assert(str_views(keys@) =~= lanes_bus_keys());
    warnings.push(RoadMsg::unimplemented("lanes:bus", tags.subset(&keys)));
    Ok(())
}

fn mark_by_lane(lanes: &mut Vec<LaneBuilder>, locale: &Locale, values: &str, offset: usize)
    requires
        offset <= old(lanes).len(),
    ensures
        final(lanes)@ == bus_by_lane(old(lanes)@, split_on(values@, '|'), offset as int),
{
    let parts = split(values, '|');
    let designated = to_chars("designated");
    if parts.len() == lanes.len() - offset {
        let mut i: usize = 0;
        while i < parts.len()
            invariant
                i <= parts.len(),
                parts.len() == lanes.len() - offset,
                lanes.len() == old(lanes).len(),
                designated@ == "designated"@,
                piece_views(parts@) == split_on(values@, '|'),
                forall|j: int|
                    0 <= j < lanes.len() ==> #[trigger] lanes[j] == (if offset <= j < offset + i
                        && piece_views(parts@)[j - offset] == "designated"@ {
                        old(lanes)[j].with_bus()
                    } else {
                        old(lanes)[j]
                    }),
            decreases parts.len() - i,
        {
            assert(piece_views(parts@)[i as int] == parts[i as int]@);
            if same_chars(&parts[i], &designated) {
                let mut lane = lanes[i + offset];
                lane.set_bus(locale);
                lanes.set(i + offset, lane);
            }
            i += 1;
        }
        assert(lanes@ =~= bus_by_lane(old(lanes)@, split_on(values@, '|'), offset as int));
    }
}

fn forward_values<'a>(tags: &'a Tags, oneway: bool) -> (values: &'a str)
    ensures
        values@ == forward_bus_values(tags@, oneway),
{
    proof {
        reveal_strlit("");
    }
    let nothing: &'static str = "";
    assert(nothing@ =~= Seq::empty());
    if let Some(s) = tags.get("bus:lanes:forward") {
        s
    } else if let Some(s) = tags.get("psv:lanes:forward") {
        s
    } else if oneway {
        if let Some(s) = tags.get("bus:lanes") {
            s
        } else if let Some(s) = tags.get("psv:lanes") {
            s
        } else {
            nothing
        }
    } else {
        nothing
    }
}

/// Follows the scheme with one value per lane.
pub fn bus_lanes(tags: &Tags, locale: &Locale, road: &mut RoadBuilder, warnings: &mut RoadWarnings) -> (result:
    Result<(), RoadError>)
    ensures
        Outcome::passed(bus_lanes_road(tags@, old(road)@), old(warnings)@).met_by(
            final(road)@,
            final(warnings)@,
            result,
        ),
{
    let oneway = matches!(road.oneway, Oneway::Yes);
    let fwd_bus_spec = forward_values(tags, oneway);
    if fwd_bus_spec.unicode_len() > 0 {
        let offset: usize = if road.forward_lanes.len() > 0 {
            match road.forward_lanes[0].direction {
                Infer::Default(Direction::Both)
                | Infer::Calculated(Direction::Both)
                | Infer::Direct(Direction::Both) => 1,
                _ => 0,
            }
        } else {
            0
        };
        mark_by_lane(&mut road.forward_lanes, locale, fwd_bus_spec, offset);
    }
    let backward = match tags.get("bus:lanes:backward") {
        Some(s) => Some(s),
        None => tags.get("psv:lanes:backward"),
    };
    if let Some(spec) = backward {
        mark_by_lane(&mut road.backward_lanes, locale, spec, 0);
    }
    Ok(())
}

/// Reserves lanes for buses by the one scheme of bus tags that the way uses.
pub fn bus(tags: &Tags, locale: &Locale, road: &mut RoadBuilder, warnings: &mut RoadWarnings) -> (result:
    Result<(), RoadError>)
    ensures
        bus_outcome(tags@, *locale, old(road)@, old(warnings)@).met_by(
            final(road)@,
            final(warnings)@,
            result,
        ),
{
    let by_busway = tags.subtree("busway").is_some();
    let by_count = tags.subtree("lanes:bus").is_some() || tags.subtree("lanes:psv").is_some();
    let by_lane = tags.subtree("bus:lanes").is_some() || tags.subtree("psv:lanes").is_some();
    match (by_busway, by_count, by_lane) {
        (false, false, false) => Ok(()),
        (true, false, false) => busway(tags, locale, road, warnings),
        (false, true, false) => lanes_bus(tags, locale, road, warnings),
        (false, false, true) => bus_lanes(tags, locale, road, warnings),
        _ => Err(RoadError::unsupported_str("more than one bus lanes scheme used")),
    }
}

} // verus!
