use vstd::prelude::*;
use crate::highway::{highway_of, HighwayType};
use crate::locale::Locale;
use crate::road::Direction;
use crate::tag::{str_views, tag_get, tag_is, tag_is_any, Tags};
use crate::text::{parse_count, parse_count_spec, starts_with};
use crate::transform::builder::{LaneBuilder, RoadBuilder, RoadBuilderView};
use crate::transform::error::{message, MsgKind, RoadMsg, RoadMsgView, RoadWarnings};
use crate::transform::oneway::Oneway;

verus! {

/// Whether the tags make the way a oneway: `oneway` is `yes` or
/// `reversible`, or the way is part of a roundabout.
pub open spec fn is_oneway(tags: Map<Seq<char>, Seq<char>>) -> bool {
    tag_is_any(tags, "oneway"@, seq!["yes"@, "reversible"@]) || tag_is(
        tags,
        "junction"@,
        "roundabout"@,
    )
}

/// The count under `key`, if the key is there and its value is a count.
pub open spec fn count_of(tags: Map<Seq<char>, Seq<char>>, key: Seq<char>) -> Option<usize> {
    match tag_get(tags, key) {
        Some(value) => parse_count_spec(value),
        None => None,
    }
}

/// The keys that count lanes.
pub open spec fn lane_count_keys() -> Seq<Seq<char>> {
    seq!["lanes"@, "lanes:forward"@, "lanes:backward"@, "lanes:both_ways"@]
}

/// The lanes that `lanes:both_ways` takes from each direction: its count,
/// or none.
pub open spec fn both_ways_count(tags: Map<Seq<char>, Seq<char>>) -> int {
    match count_of(tags, "lanes:both_ways"@) {
        Some(n) => n as int,
        None => 0,
    }
}

/// The number of forward driving lanes before it is held above zero:
/// `lanes:forward`; else, from `lanes`, all of them on a oneway and the
/// larger half otherwise, less those for both ways; else one.
pub open spec fn forward_count_stated(tags: Map<Seq<char>, Seq<char>>, oneway: bool) -> int {
    match count_of(tags, "lanes:forward"@) {
        Some(n) => n as int,
        None => match count_of(tags, "lanes"@) {
            Some(n) => (if oneway {
                n as int
            } else {
                (n + 1) / 2
            }) - both_ways_count(tags),
            None => 1,
        },
    }
}

/// The number of forward driving lanes.
pub open spec fn forward_count(tags: Map<Seq<char>, Seq<char>>, oneway: bool) -> int {
    if forward_count_stated(tags, oneway) < 0 {
        0
    } else {
        forward_count_stated(tags, oneway)
    }
}

/// The fewest backward lanes a road has where no tag counts them: none on a
/// oneway, one on a two-way road.
pub open spec fn least_backward(oneway: bool) -> int {
    if oneway {
        0
    } else {
        1
    }
}

/// The number of backward driving lanes before it is held above zero:
/// `lanes:backward`; else, from `lanes`, those that the forward side leaves,
/// but at least the fewest a road has, less those for both ways; else the
/// fewest a road has.
pub open spec fn backward_count_stated(tags: Map<Seq<char>, Seq<char>>, oneway: bool) -> int {
    match count_of(tags, "lanes:backward"@) {
        Some(n) => n as int,
        None => match count_of(tags, "lanes"@) {
            Some(n) => (if n - forward_count(tags, oneway) < least_backward(oneway) {
                least_backward(oneway)
            } else {
                n - forward_count(tags, oneway)
            }) - both_ways_count(tags),
            None => least_backward(oneway),
        },
    }
}

/// The number of backward driving lanes.
pub open spec fn backward_count(tags: Map<Seq<char>, Seq<char>>, oneway: bool) -> int {
    if backward_count_stated(tags, oneway) < 0 {
        0
    } else {
        backward_count_stated(tags, oneway)
    }
}

/// Whether the counts had to be bent: one came out below zero, or `lanes`
/// left the backward side fewer lanes than a road has.
pub open spec fn counts_doubtful(tags: Map<Seq<char>, Seq<char>>, oneway: bool) -> bool {
    ||| forward_count_stated(tags, oneway) < 0
    ||| backward_count_stated(tags, oneway) < 0
    ||| (count_of(tags, "lanes:backward"@) is None && count_of(tags, "lanes"@) is Some
        && count_of(tags, "lanes"@)->0 - forward_count(tags, oneway) < least_backward(oneway))
}

/// The warnings after the lanes are counted: one more if the counts had to
/// be bent.
pub open spec fn counting_warnings(
    tags: Map<Seq<char>, Seq<char>>,
    oneway: bool,
    warnings: Seq<RoadMsgView>,
) -> Seq<RoadMsgView> {
    if counts_doubtful(tags, oneway) {
        warnings.push(
            message(
                MsgKind::Ambiguous,
                "lane counts do not add up"@,
                tags.restrict(lane_count_keys().to_set()),
            ),
        )
    } else {
        warnings
    }
}

fn tag_count(tags: &Tags, key: &str) -> (count: Option<usize>)
    ensures
        count == count_of(tags@, key@),
{
    match tags.get(key) {
        Some(value) => parse_count(value),
        None => None,
    }
}

/// Counts the driving lanes of each direction, forward first.
pub fn driving_lane_directions(
    tags: &Tags,
    _locale: &Locale,
    oneway: bool,
    warnings: &mut RoadWarnings,
) -> (counts: (usize, usize))
    ensures
        counts.0 == forward_count(tags@, oneway),
        counts.1 == backward_count(tags@, oneway),
        final(warnings)@ == counting_warnings(tags@, oneway, old(warnings)@),
{
    let both_ways: usize = match tag_count(tags, "lanes:both_ways") {
        Some(n) => n,
        None => 0,
    };
    let lanes = tag_count(tags, "lanes");
    let mut doubtful = false;
    let num_driving_fwd: usize = match tag_count(tags, "lanes:forward") {
        Some(n) => n,
        None => match lanes {
            Some(n) => {
                let half: usize = if oneway {
                    n
                } else {
                    n / 2 + n % 2
                };
                if half < both_ways {
                    doubtful = true;
                    0
                } else {
                    half - both_ways
                }
            },
            None => 1,
        },
    };
    let least: usize = if oneway {
        0
    } else {
        1
    };
    let num_driving_back: usize = match tag_count(tags, "lanes:backward") {
        Some(n) => n,
        None => match lanes {
            Some(n) => {
                let half: usize = if n < num_driving_fwd || n - num_driving_fwd < least {
                    doubtful = true;
                    least
                } else {
                    n - num_driving_fwd
                };
                if half < both_ways {
                    doubtful = true;
                    0
                } else {
                    half - both_ways
                }
            },
            None => least,
        },
    };
    assert(doubtful == counts_doubtful(tags@, oneway));
    if doubtful {
        let keys = ["lanes", "lanes:forward", "lanes:backward", "lanes:both_ways"];
        assert(str_views(keys@) =~= lane_count_keys());
        warnings.push(RoadMsg::ambiguous("lane counts do not add up", tags.subset(&keys)));
    }
    (num_driving_fwd, num_driving_back)
}

/// Whether the driving lanes are for buses alone.
pub open spec fn bus_only(tags: Map<Seq<char>, Seq<char>>) -> bool {
    ||| (tag_is(tags, "access"@, "no"@) && (tag_is(tags, "bus"@, "yes"@) || tag_is(
        tags,
        "psv"@,
        "yes"@,
    )))
    ||| (tags.contains_key("motor_vehicle:conditional"@) && "no"@.is_prefix_of(
        tags["motor_vehicle:conditional"@],
    ) && tag_is(tags, "bus"@, "yes"@))
}

/// Whether the driving lanes are closed for works.
pub open spec fn under_construction(tags: Map<Seq<char>, Seq<char>>) -> bool {
    !bus_only(tags) && tag_is(tags, "access"@, "no"@) && tag_is(
        tags,
        "highway"@,
        "construction"@,
    )
}

/// Whether the road has a turn lane in its middle that both directions
/// share.
pub open spec fn has_centre_turn_lane(tags: Map<Seq<char>, Seq<char>>) -> bool {
    tag_is(tags, "lanes:both_ways"@, "1"@) || tag_is(tags, "centre_turn_lane"@, "yes"@)
}

/// `count` driving lanes in `direction`.
pub open spec fn driving_lanes(
    tags: Map<Seq<char>, Seq<char>>,
    direction: Direction,
    count: int,
    highway: HighwayType,
) -> Seq<LaneBuilder> {
    Seq::new(
        count as nat,
        |i: int| LaneBuilder::driving(direction, bus_only(tags), under_construction(tags), highway),
    )
}

/// The road with its driving lanes: on each side as many as are counted,
/// after the lanes already there, and the shared turn lane, if there is
/// one, before all others on the forward side.
pub open spec fn with_driving_lanes(
    tags: Map<Seq<char>, Seq<char>>,
    road: RoadBuilderView,
) -> RoadBuilderView {
    let oneway = road.oneway.holds();
    let forward = road.forward + driving_lanes(
        tags,
        Direction::Forward,
        forward_count(tags, oneway),
        road.highway,
    );
    let backward = road.backward + driving_lanes(
        tags,
        Direction::Backward,
        backward_count(tags, oneway),
        road.highway,
    );
    road.with_forward(
        if has_centre_turn_lane(tags) {
            forward.insert(0, LaneBuilder::shared_left_turn(road.highway))
        } else {
            forward
        },
    ).with_backward(backward)
}

/// The road before any lane is inferred: the class of the way, and whether
/// it is a oneway.
pub open spec fn empty_road(tags: Map<Seq<char>, Seq<char>>) -> RoadBuilderView {
    RoadBuilderView {
        forward: Seq::empty(),
        backward: Seq::empty(),
        highway: highway_of(tags),
        oneway: Oneway::of(is_oneway(tags)),
    }
}

fn bus_only_lanes(tags: &Tags) -> (held: bool)
    ensures
        held == bus_only(tags@),
{
    let conditional = match tags.get("motor_vehicle:conditional") {
        Some(value) => starts_with(value, "no"),
        None => false,
    };
    tags.is("access", "no") && (tags.is("bus", "yes") || tags.is("psv", "yes")) || conditional
        && tags.is("bus", "yes")
}

fn push_lanes(lanes: &mut Vec<LaneBuilder>, lane: LaneBuilder, count: usize)
    ensures
        final(lanes)@ == old(lanes)@ + Seq::new(count as nat, |i: int| lane),
{
    let mut i: usize = 0;
    while i < count
        invariant
            i <= count,
            lanes@ == old(lanes)@ + Seq::new(i as nat, |i: int| lane),
        decreases count - i,
    {
        lanes.push(lane);
        i += 1;
        assert(lanes@ =~= old(lanes)@ + Seq::new(i as nat, |i: int| lane));
    }
}

impl RoadBuilder {
    /// The road of a way before any lane is inferred.
    pub fn from(tags: &Tags, _locale: &Locale) -> (road: RoadBuilder)
        ensures
            road@ == empty_road(tags@),
    {
        let values = ["yes", "reversible"];
        assert(str_views(values@) =~= seq!["yes"@, "reversible"@]);
        let oneway = tags.is_any("oneway", &values) || tags.is("junction", "roundabout");
        RoadBuilder {
            forward_lanes: Vec::new(),
            backward_lanes: Vec::new(),
            highway: HighwayType::from_tags(tags),
            oneway: if oneway {
                Oneway::Yes
            } else {
                Oneway::No
            },
        }
    }

    /// Adds the driving lanes and the shared turn lane; says whether the
    /// driving lanes are closed for works.
    pub fn add_driving_lanes(&mut self, tags: &Tags, locale: &Locale, warnings: &mut RoadWarnings) -> (construction:
        bool)
        ensures
            final(self)@ == with_driving_lanes(tags@, old(self)@),
            final(warnings)@ == counting_warnings(
                tags@,
                old(self).oneway.holds(),
                old(warnings)@,
            ),
            construction == under_construction(tags@),
    {
        let oneway = matches!(self.oneway, Oneway::Yes);
        let (forward, backward) = driving_lane_directions(tags, locale, oneway, warnings);
        let buses = bus_only_lanes(tags);
        let construction = !buses && tags.is("access", "no") && tags.is("highway", "construction");
        let highway = self.highway;
        push_lanes(
            &mut self.forward_lanes,
            LaneBuilder::new_driving(Direction::Forward, buses, construction, locale, highway),
            forward,
        );
        push_lanes(
            &mut self.backward_lanes,
            LaneBuilder::new_driving(Direction::Backward, buses, construction, locale, highway),
            backward,
        );
        proof {
            assert(self.forward_lanes@ =~= old(self)@.forward + driving_lanes(
                tags@,
                Direction::Forward,
                forward_count(tags@, oneway),
                highway,
            ));
            assert(self.backward_lanes@ =~= old(self)@.backward + driving_lanes(
                tags@,
                Direction::Backward,
                backward_count(tags@, oneway),
                highway,
            ));
        }
        if tags.is("lanes:both_ways", "1") || tags.is("centre_turn_lane", "yes") {
            self.forward_lanes.insert(0, LaneBuilder::new_shared_left_turn(locale, highway));
        }
        construction
    }
}

} // verus!
