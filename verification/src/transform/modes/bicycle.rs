use vstd::prelude::*;
use crate::highway::HighwayType;
use crate::locale::{way_side_name, DrivingSide, Locale, WaySide};
use crate::road::{Designated, Direction};
use crate::tag::{key_join, str_views, tag_get, tag_is, tag_is_any, TagKey, Tags};
use crate::text::str_eq;
use crate::transform::builder::{BufferType, LaneBuilder, Outcome, RoadBuilder, RoadBuilderView};
use crate::transform::error::{message, plain_message, MsgKind, RoadError, RoadMsg, RoadMsgView, RoadWarnings};

verus! {

/// The values of a cycleway tag that say there is a cycle lane or track.
pub open spec fn lane_or_track() -> Seq<Seq<char>> {
    seq!["lane"@, "track"@]
}

/// The values of a cycleway tag that name, in the old way, a lane or track
/// against the direction of a oneway.
pub open spec fn opposite_lane_or_track() -> Seq<Seq<char>> {
    seq!["opposite_lane"@, "opposite_track"@]
}

/// The cycleway key for a side of the way, or the key without a side.
pub open spec fn cycleway_key(side: Option<WaySide>) -> Seq<char> {
    match side {
        Some(s) => key_join("cycleway"@, way_side_name(s)),
        None => "cycleway"@,
    }
}

/// Whether the tags put a cycle lane or track on `side`, or, without a side,
/// on the way as a whole.
pub open spec fn is_cycleway(tags: Map<Seq<char>, Seq<char>>, side: Option<WaySide>) -> bool {
    tag_is_any(tags, cycleway_key(side), lane_or_track())
}

/// Whether cyclists may use the cycleway on `side` in both directions.
pub open spec fn cycleway_both_ways(tags: Map<Seq<char>, Seq<char>>, side: DrivingSide) -> bool {
    tag_is(tags, key_join(cycleway_key(Some(WaySide::of(side))), "oneway"@), "no"@) || tag_is(
        tags,
        "oneway:bicycle"@,
        "no"@,
    )
}

/// The kind of buffer that a value of a separation tag names, if any.
pub open spec fn separation_buffer(value: Seq<char>) -> Option<BufferType> {
    if value == "bollard"@ || value == "vertical_panel"@ {
        Some(BufferType::FlexPosts)
    } else if value == "kerb"@ || value == "separation_kerb"@ {
        Some(BufferType::Curb)
    } else if value == "grass_verge"@ || value == "planter"@ || value == "tree_row"@ {
        Some(BufferType::Planters)
    } else if value == "guard_rail"@ || value == "jersey_barrier"@ || value == "railing"@ {
        Some(BufferType::JerseyBarrier)
    } else if value == "barred_area"@ || value == "dashed_line"@ || value == "solid_line"@ {
        Some(BufferType::Stripes)
    } else {
        None
    }
}

/// The kind of buffer that the tag under `key` names, if any.
pub open spec fn separation(tags: Map<Seq<char>, Seq<char>>, key: Seq<char>) -> Option<
    BufferType,
> {
    match tag_get(tags, key) {
        Some(value) => separation_buffer(value),
        None => None,
    }
}

/// The position of the first travel lane for `designated`, or the length of
/// the list if there is none.
pub open spec fn first_for(lanes: Seq<LaneBuilder>, designated: Designated) -> int
    decreases lanes.len(),
{
    if lanes.len() == 0 {
        0
    } else if lanes[0].is_for(designated) {
        0
    } else {
        1 + first_for(lanes.drop_first(), designated)
    }
}

/// `first_for` is the one position before which no lane is for `designated`
/// and at which one is, or the end.
pub proof fn lemma_first_for(lanes: Seq<LaneBuilder>, designated: Designated, i: int)
    requires
        0 <= i <= lanes.len(),
        forall|j: int| 0 <= j < i ==> !(#[trigger] lanes[j]).is_for(designated),
        i < lanes.len() ==> lanes[i].is_for(designated),
    ensures
        first_for(lanes, designated) == i,
    decreases lanes.len(),
{
    if lanes.len() > 0 && i > 0 {
        assert(!lanes[0].is_for(designated));
        let rest = lanes.drop_first();
        assert forall|j: int| 0 <= j < i - 1 implies !(#[trigger] rest[j]).is_for(designated) by {
            assert(rest[j] == lanes[j + 1]);
        }
        lemma_first_for(rest, designated, i - 1);
    }
}

/// The lanes with a buffer put `offset` places after the first cycle lane;
/// unchanged where there is no buffer to put or no cycle lane.
pub open spec fn with_buffer(
    lanes: Seq<LaneBuilder>,
    buffer: Option<BufferType>,
    offset: int,
    direction: Direction,
) -> Seq<LaneBuilder> {
    let at = first_for(lanes, Designated::Bicycle);
    match buffer {
        Some(b) => if at < lanes.len() {
            lanes.insert(at + offset, LaneBuilder::buffer(b, direction))
        } else {
            lanes
        },
        None => lanes,
    }
}

/// The road with the buffers that the separation tags of its cycleways name.
pub open spec fn with_separation(
    tags: Map<Seq<char>, Seq<char>>,
    road: RoadBuilderView,
) -> RoadBuilderView {
    let forward = with_buffer(
        road.forward,
        separation(tags, "cycleway:right:separation:left"@),
        0,
        Direction::Forward,
    );
    let backward = with_buffer(
        road.backward,
        separation(tags, "cycleway:left:separation:left"@),
        0,
        Direction::Backward,
    );
    let forward = with_buffer(
        forward,
        separation(tags, "cycleway:left:separation:right"@),
        1,
        Direction::Forward,
    );
    road.with_forward(forward).with_backward(backward)
}

/// The road and the warnings while cycle lanes are added, and whether any
/// was added.
pub struct Cycling {
    pub road: RoadBuilderView,
    pub warnings: Seq<RoadMsgView>,
    pub added: bool,
}

/// A cycle lane in `direction`.
pub open spec fn cycle_lane(direction: Direction, highway: HighwayType) -> LaneBuilder {
    LaneBuilder::travel(direction, Designated::Bicycle, highway)
}

/// What `cycleway=lane` or `cycleway=track` adds: a cycle lane forward, and
/// one backward unless `oneway=yes`; on such a oneway a warning if the road
/// has backward lanes.
pub open spec fn unsided_cycling(
    tags: Map<Seq<char>, Seq<char>>,
    road: RoadBuilderView,
    warnings: Seq<RoadMsgView>,
) -> Cycling {
    let road = road.push_forward(cycle_lane(Direction::Forward, road.highway));
    if tag_is(tags, "oneway"@, "yes"@) {
        Cycling {
            road,
            warnings: if road.backward.len() > 0 {
                warnings.push(
                    message(
                        MsgKind::Ambiguous,
                        "oneway has backwards lanes when adding cycleways"@,
                        tags.restrict(seq!["oneway"@, "cycleway"@].to_set()),
                    ),
                )
            } else {
                warnings
            },
            added: true,
        }
    } else {
        Cycling {
            road: road.push_backward(cycle_lane(Direction::Backward, road.highway)),
            warnings,
            added: true,
        }
    }
}

/// What the deprecated `cycleway=opposite_lane` adds: a warning and a cycle
/// lane backward.
pub open spec fn opposite_lane_cycling(tags: Map<Seq<char>, Seq<char>>, c: Cycling) -> Cycling {
    if tag_is(tags, "cycleway"@, "opposite_lane"@) {
        Cycling {
            road: c.road.push_backward(cycle_lane(Direction::Backward, c.road.highway)),
            warnings: c.warnings.push(
                message(
                    MsgKind::Deprecated,
                    "cycleway=opposite_lane deprecated"@,
                    tags.restrict(seq!["cycleway"@].to_set()),
                ),
            ),
            added: true,
        }
    } else {
        c
    }
}

/// What a cycleway on the driving side adds: a cycle lane on the forward
/// side, for both directions if the tags say so. The deprecated opposite
/// forms add a warning and a backward cycle lane on the forward side.
pub open spec fn driving_side_cycling(
    tags: Map<Seq<char>, Seq<char>>,
    locale: Locale,
    c: Cycling,
) -> Cycling {
    let side = locale.driving_side;
    let c = if is_cycleway(tags, Some(WaySide::of(side))) {
        Cycling {
            road: c.road.push_forward(
                cycle_lane(
                    if cycleway_both_ways(tags, side) {
                        Direction::Both
                    } else {
                        Direction::Forward
                    },
                    c.road.highway,
                ),
            ),
            warnings: c.warnings,
            added: true,
        }
    } else {
        c
    };
    if tag_is_any(tags, cycleway_key(Some(WaySide::of(side))), opposite_lane_or_track()) {
        Cycling {
            road: c.road.push_forward(cycle_lane(Direction::Backward, c.road.highway)),
            warnings: c.warnings.push(
                message(
                    MsgKind::Deprecated,
                    "cycleway:FORWARD=opposite_lane deprecated"@,
                    tags.restrict(seq!["cycleway"@].to_set()),
                ),
            ),
            added: true,
        }
    } else {
        c
    }
}

/// What a cycleway on the side against the driving side adds: a cycle lane
/// for both directions on the backward side if the tags say so; else, on a
/// oneway, a forward cycle lane at the inner edge of the forward side; else
/// a backward cycle lane on the backward side.
pub open spec fn opposite_side_cycling(
    tags: Map<Seq<char>, Seq<char>>,
    locale: Locale,
    c: Cycling,
) -> Cycling {
    let side = locale.driving_side.flipped();
    if is_cycleway(tags, Some(WaySide::of(side))) {
        Cycling {
            road: if cycleway_both_ways(tags, side) {
                c.road.push_backward(cycle_lane(Direction::Both, c.road.highway))
            } else if c.road.oneway.holds() {
                c.road.with_forward(
                    c.road.forward.insert(0, cycle_lane(Direction::Forward, c.road.highway)),
                )
            } else {
                c.road.push_backward(cycle_lane(Direction::Backward, c.road.highway))
            },
            warnings: c.warnings,
            added: true,
        }
    } else {
        c
    }
}

/// What the cycleway tags with a side add, one after the other.
pub open spec fn sided_cycling(
    tags: Map<Seq<char>, Seq<char>>,
    locale: Locale,
    road: RoadBuilderView,
    warnings: Seq<RoadMsgView>,
) -> Cycling {
    opposite_side_cycling(
        tags,
        locale,
        driving_side_cycling(
            tags,
            locale,
            opposite_lane_cycling(tags, Cycling { road, warnings, added: false }),
        ),
    )
}

/// The end of the pass: no cycle lane may have been added under left-hand
/// traffic; otherwise the separation buffers are put in.
pub open spec fn cycling_finished(
    tags: Map<Seq<char>, Seq<char>>,
    locale: Locale,
    c: Cycling,
) -> Outcome {
    if locale.driving_side == DrivingSide::Left && c.added {
        Outcome::stopped(
            c.road,
            c.warnings,
            plain_message(MsgKind::Unsupported, "LHT with cycleways not supported"@),
        )
    } else {
        Outcome::passed(with_separation(tags, c.road), c.warnings)
    }
}

/// What the bicycle pass leaves. `cycleway=lane|track` stands alone: with a
/// sided cycleway beside it the pass stops. Else `cycleway:both=lane|track`
/// adds one cycle lane for both directions on the forward side. Else the
/// sided tags are read; a deprecated opposite lane on the side against the
/// driving side stops the pass.
pub open spec fn bicycle_outcome(
    tags: Map<Seq<char>, Seq<char>>,
    locale: Locale,
    road: RoadBuilderView,
    warnings: Seq<RoadMsgView>,
) -> Outcome {
    if is_cycleway(tags, None) {
        if is_cycleway(tags, Some(WaySide::Both)) || is_cycleway(tags, Some(WaySide::Right))
            || is_cycleway(tags, Some(WaySide::Left)) {
            Outcome::stopped(
                road,
                warnings,
                plain_message(
                    MsgKind::Unsupported,
                    "cycleway=* not supported with any cycleway:* values"@,
                ),
            )
        } else {
            cycling_finished(tags, locale, unsided_cycling(tags, road, warnings))
        }
    } else if is_cycleway(tags, Some(WaySide::Both)) {
        cycling_finished(
            tags,
            locale,
            Cycling {
                road: road.push_forward(cycle_lane(Direction::Both, road.highway)),
                warnings,
                added: true,
            },
        )
    } else {
        let c = sided_cycling(tags, locale, road, warnings);
        if tag_is_any(
            tags,
            cycleway_key(Some(WaySide::of(locale.driving_side.flipped()))),
            opposite_lane_or_track(),
        ) {
            Outcome::stopped(
                c.road,
                c.warnings,
                plain_message(
                    MsgKind::Unsupported,
                    "cycleway:BACKWARD=opposite_lane unsupported"@,
                ),
            )
        } else {
            cycling_finished(tags, locale, c)
        }
    }
}

/// See <https://wiki.openstreetmap.org/wiki/Proposed_features/cycleway:separation#Typical_values>.
pub fn osm_separation_type(x: &str) -> (buffer: Option<BufferType>)
    ensures
        buffer == separation_buffer(x@),
{
    if str_eq(x, "bollard") || str_eq(x, "vertical_panel") {
        Some(BufferType::FlexPosts)
    } else if str_eq(x, "kerb") || str_eq(x, "separation_kerb") {
        Some(BufferType::Curb)
    } else if str_eq(x, "grass_verge") || str_eq(x, "planter") || str_eq(x, "tree_row") {
        Some(BufferType::Planters)
    } else if str_eq(x, "guard_rail") || str_eq(x, "jersey_barrier") || str_eq(x, "railing") {
        Some(BufferType::JerseyBarrier)
    } else if str_eq(x, "barred_area") || str_eq(x, "dashed_line") || str_eq(x, "solid_line") {
        Some(BufferType::Stripes)
    } else {
        None
    }
}

fn separation_of(tags: &Tags, key: &str) -> (buffer: Option<BufferType>)
    ensures
        buffer == separation(tags@, key@),
{
    match tags.get(key) {
        Some(value) => osm_separation_type(value),
        None => None,
    }
}

fn side_key(side: WaySide) -> (key: TagKey)
    ensures
        key@ == cycleway_key(Some(side)),
{
    TagKey::from("cycleway").add(side.as_str())
}

fn way_side(side: DrivingSide) -> (way_side: WaySide)
    ensures
        way_side == WaySide::of(side),
{
    match side {
        DrivingSide::Right => WaySide::Right,
        DrivingSide::Left => WaySide::Left,
    }
}

fn has_cycleway(tags: &Tags, side: Option<WaySide>) -> (held: bool)
    ensures
        held == is_cycleway(tags@, side),
{
    let values = ["lane", "track"];
    assert(str_views(values@) =~= lane_or_track());
    match side {
        Some(s) => tags.is_any(side_key(s).as_str(), &values),
        None => tags.is_any("cycleway", &values),
    }
}

fn has_opposite(tags: &Tags, side: DrivingSide) -> (held: bool)
    ensures
        held == tag_is_any(
            tags@,
            cycleway_key(Some(WaySide::of(side))),
            opposite_lane_or_track(),
        ),
{
    let values = ["opposite_lane", "opposite_track"];
    assert(str_views(values@) =~= opposite_lane_or_track());
    tags.is_any(side_key(way_side(side)).as_str(), &values)
}

fn both_ways(tags: &Tags, side: DrivingSide) -> (held: bool)
    ensures
        held == cycleway_both_ways(tags@, side),
{
    tags.is(side_key(way_side(side)).add("oneway").as_str(), "no") || tags.is(
        "oneway:bicycle",
        "no",
    )
}

fn first_bicycle(lanes: &Vec<LaneBuilder>) -> (at: usize)
    ensures
        at == first_for(lanes@, Designated::Bicycle),
        at <= lanes.len(),
{
    let mut i: usize = 0;
    while i < lanes.len()
        invariant
            i <= lanes.len(),
            forall|j: int| 0 <= j < i ==> !(#[trigger] lanes[j]).is_for(Designated::Bicycle),
        decreases lanes.len() - i,
    {
        if lanes[i].is_designated(Designated::Bicycle) {
            proof {
                lemma_first_for(lanes@, Designated::Bicycle, i as int);
            }
            return i;
        }
        i += 1;
    }
    proof {
        lemma_first_for(lanes@, Designated::Bicycle, i as int);
    }
    i
}

fn put_buffer(
    lanes: &mut Vec<LaneBuilder>,
    buffer: Option<BufferType>,
    offset: usize,
    direction: Direction,
)
    requires
        offset <= 1,
    ensures
        final(lanes)@ == with_buffer(old(lanes)@, buffer, offset as int, direction),
{
    match buffer {
        Some(b) => {
            let at = first_bicycle(lanes);
            if at < lanes.len() {
                lanes.insert(at + offset, LaneBuilder::new_buffer(b, direction));
            }
        },
        None => {},
    }
}

fn separation_buffers(tags: &Tags, road: &mut RoadBuilder)
    ensures
        final(road)@ == with_separation(tags@, old(road)@),
{
    put_buffer(
        &mut road.forward_lanes,
        separation_of(tags, "cycleway:right:separation:left"),
        0,
        Direction::Forward,
    );
    put_buffer(
        &mut road.backward_lanes,
        separation_of(tags, "cycleway:left:separation:left"),
        0,
        Direction::Backward,
    );
    put_buffer(
        &mut road.forward_lanes,
        separation_of(tags, "cycleway:left:separation:right"),
        1,
        Direction::Forward,
    );
}

fn add_unsided(tags: &Tags, locale: &Locale, road: &mut RoadBuilder, warnings: &mut RoadWarnings)
    ensures
        final(road)@ == unsided_cycling(tags@, old(road)@, old(warnings)@).road,
        final(warnings)@ == unsided_cycling(tags@, old(road)@, old(warnings)@).warnings,
{
    let highway = road.highway;
    road.forward_lanes.push(
        LaneBuilder::new_travel(Direction::Forward, Designated::Bicycle, locale, highway),
    );
    if tags.is("oneway", "yes") {
        if road.backward_lanes.len() > 0 {
            let keys = ["oneway", "cycleway"];
            assert(str_views(keys@) =~= seq!["oneway"@, "cycleway"@]);
            warnings.push(
                RoadMsg::ambiguous(
                    "oneway has backwards lanes when adding cycleways",
                    tags.subset(&keys),
                ),
            );
        }
    } else {
        road.backward_lanes.push(
            LaneBuilder::new_travel(Direction::Backward, Designated::Bicycle, locale, highway),
        );
    }
}

fn add_sided(tags: &Tags, locale: &Locale, road: &mut RoadBuilder, warnings: &mut RoadWarnings) -> (added:
    bool)
    ensures
        final(road)@ == sided_cycling(tags@, *locale, old(road)@, old(warnings)@).road,
        final(warnings)@ == sided_cycling(tags@, *locale, old(road)@, old(warnings)@).warnings,
        added == sided_cycling(tags@, *locale, old(road)@, old(warnings)@).added,
{
    let highway = road.highway;
    let side = locale.driving_side;
    let mut added = false;
    let ghost c0 = Cycling { road: road@, warnings: warnings@, added: false };
    if tags.is("cycleway", "opposite_lane") {
        let keys = ["cycleway"];
        assert(str_views(keys@) =~= seq!["cycleway"@]);
        warnings.push(RoadMsg::deprecated("cycleway=opposite_lane deprecated", tags.subset(&keys)));
        road.backward_lanes.push(
            LaneBuilder::new_travel(Direction::Backward, Designated::Bicycle, locale, highway),
        );
        added = true;
    }
    let ghost c1 = opposite_lane_cycling(tags@, c0);
    assert(road@ == c1.road && warnings@ == c1.warnings && added == c1.added);
    if has_cycleway(tags, Some(way_side(side))) {
        let direction = if both_ways(tags, side) {
            Direction::Both
        } else {
            Direction::Forward
        };
        road.forward_lanes.push(
            LaneBuilder::new_travel(direction, Designated::Bicycle, locale, highway),
        );
        added = true;
    }
    if has_opposite(tags, side) {
        let keys = ["cycleway"];
        assert(str_views(keys@) =~= seq!["cycleway"@]);
        warnings.push(
            RoadMsg::deprecated("cycleway:FORWARD=opposite_lane deprecated", tags.subset(&keys)),
        );
        road.forward_lanes.push(
            LaneBuilder::new_travel(Direction::Backward, Designated::Bicycle, locale, highway),
        );
        added = true;
    }
    let ghost c2 = driving_side_cycling(tags@, *locale, c1);
    assert(road@ == c2.road && warnings@ == c2.warnings && added == c2.added);
    let other = side.opposite();
    if has_cycleway(tags, Some(way_side(other))) {
        if both_ways(tags, other) {
            road.backward_lanes.push(
                LaneBuilder::new_travel(Direction::Both, Designated::Bicycle, locale, highway),
            );
        } else if matches!(road.oneway, crate::transform::oneway::Oneway::Yes) {
            road.forward_lanes.insert(
                0,
                LaneBuilder::new_travel(Direction::Forward, Designated::Bicycle, locale, highway),
            );
        } else {
            road.backward_lanes.push(
                LaneBuilder::new_travel(Direction::Backward, Designated::Bicycle, locale, highway),
            );
        }
        added = true;
    }
    added
}

fn finish_cycling(tags: &Tags, locale: &Locale, road: &mut RoadBuilder, added: bool) -> (result:
    Result<(), RoadError>)
    ensures
        cycling_finished(
            tags@,
            *locale,
            Cycling { road: old(road)@, warnings: Seq::empty(), added },
        ).met_by(final(road)@, Seq::empty(), result),
{
    if matches!(locale.driving_side, DrivingSide::Left) && added {
        return Err(RoadError::unsupported_str("LHT with cycleways not supported"));
    }
    separation_buffers(tags, road);
    Ok(())
}

/// Adds the cycle lanes that the cycleway tags describe, and the buffers
/// beside them.
pub fn bicycle(tags: &Tags, locale: &Locale, road: &mut RoadBuilder, warnings: &mut RoadWarnings) -> (result:
    Result<(), RoadError>)
    ensures
        bicycle_outcome(tags@, *locale, old(road)@, old(warnings)@).met_by(
            final(road)@,
            final(warnings)@,
            result,
        ),
{
    let highway = road.highway;
    if has_cycleway(tags, None) {
        if has_cycleway(tags, Some(WaySide::Both)) || has_cycleway(tags, Some(WaySide::Right))
            || has_cycleway(tags, Some(WaySide::Left)) {
            return Err(
                RoadError::unsupported_str("cycleway=* not supported with any cycleway:* values"),
            );
        }
        add_unsided(tags, locale, road, warnings);
        finish_cycling(tags, locale, road, true)
    } else if has_cycleway(tags, Some(WaySide::Both)) {
        road.forward_lanes.push(
            LaneBuilder::new_travel(Direction::Both, Designated::Bicycle, locale, highway),
        );
        finish_cycling(tags, locale, road, true)
    } else {
        let added = add_sided(tags, locale, road, warnings);
        if has_opposite(tags, locale.driving_side.opposite()) {
            return Err(RoadError::unsupported_str("cycleway:BACKWARD=opposite_lane unsupported"));
        }
        finish_cycling(tags, locale, road, added)
    }
}

} // verus!
