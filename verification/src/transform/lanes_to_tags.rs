use vstd::prelude::*;
use vstd::string::StringExecFns;
use crate::locale::Locale;
use crate::road::{Designated, Direction};
use crate::tag::Tags;
use crate::text::{count_to_string, decimal};
use crate::transform::builder::LaneType;
use crate::transform::lane_spec::{LaneSpec, LaneSpecError};

verus! {

/// Whether the lane counts for the `lanes` tag: a lane for motor traffic or
/// buses, or the shared turn lane.
pub open spec fn counts_as_lane(lane: LaneSpec) -> bool {
    lane.is_for(Designated::Motor) || lane.lane_type == LaneType::SharedLeftTurn || lane.is_for(
        Designated::Bus,
    )
}

/// How many lanes count for the `lanes` tag.
pub open spec fn counted_lanes(lanes: Seq<LaneSpec>) -> nat
    decreases lanes.len(),
{
    if lanes.len() == 0 {
        0
    } else {
        counted_lanes(lanes.drop_last()) + if counts_as_lane(lanes.last()) {
            1nat
        } else {
            0nat
        }
    }
}

/// Whether every lane for motor traffic runs forward.
pub open spec fn all_driving_forward(lanes: Seq<LaneSpec>) -> bool {
    forall|i: int|
        0 <= i < lanes.len() && (#[trigger] lanes[i]).is_for(Designated::Motor)
            ==> lanes[i].direction == Some(Direction::Forward)
}

/// Whether no lane before position `i` is for motor traffic.
pub open spec fn no_driving_before(lanes: Seq<LaneSpec>, i: int) -> bool {
    forall|j: int| 0 <= j < i && j < lanes.len() ==> !(#[trigger] lanes[j]).is_for(
        Designated::Motor,
    )
}

/// Whether no lane after position `i` is for motor traffic.
pub open spec fn no_driving_after(lanes: Seq<LaneSpec>, i: int) -> bool {
    forall|j: int| i < j < lanes.len() && 0 <= j ==> !(#[trigger] lanes[j]).is_for(
        Designated::Motor,
    )
}

/// Whether a parking lane lies left of all lanes for motor traffic.
pub open spec fn parking_on_left(lanes: Seq<LaneSpec>) -> bool {
    exists|i: int|
        0 <= i < lanes.len() && (#[trigger] lanes[i]).lane_type == LaneType::Parking
            && no_driving_before(lanes, i)
}

/// Whether a parking lane lies right of some lane for motor traffic.
pub open spec fn parking_on_right(lanes: Seq<LaneSpec>) -> bool {
    exists|i: int|
        0 <= i < lanes.len() && (#[trigger] lanes[i]).lane_type == LaneType::Parking
            && !no_driving_before(lanes, i)
}

/// Whether the lane at `i` is the first cycle lane from the left, with no
/// lane for motor traffic before it.
pub open spec fn left_cycle_lane_at(lanes: Seq<LaneSpec>, i: int) -> bool {
    &&& 0 <= i < lanes.len()
    &&& lanes[i].is_for(Designated::Bicycle)
    &&& no_driving_before(lanes, i)
    &&& forall|j: int| 0 <= j < i ==> !(#[trigger] lanes[j]).is_for(Designated::Bicycle)
}

/// Whether the lane at `i` is the first cycle lane from the right, with no
/// lane for motor traffic after it.
pub open spec fn right_cycle_lane_at(lanes: Seq<LaneSpec>, i: int) -> bool {
    &&& 0 <= i < lanes.len()
    &&& lanes[i].is_for(Designated::Bicycle)
    &&& no_driving_after(lanes, i)
    &&& forall|j: int| i < j < lanes.len() ==> !(#[trigger] lanes[j]).is_for(Designated::Bicycle)
}

/// Whether there is a cycle lane on the left of the lanes for motor
/// traffic, and, with `both`, whether it serves both directions.
pub open spec fn left_cycle_lane(lanes: Seq<LaneSpec>, both: bool) -> bool {
    exists|i: int| #[trigger]
        left_cycle_lane_at(lanes, i) && (both ==> lanes[i].direction == Some(Direction::Both))
}

/// Whether there is a cycle lane on the right of the lanes for motor
/// traffic, and, with `both`, whether it serves both directions.
pub open spec fn right_cycle_lane(lanes: Seq<LaneSpec>, both: bool) -> bool {
    exists|i: int| #[trigger]
        right_cycle_lane_at(lanes, i) && (both ==> lanes[i].direction == Some(Direction::Both))
}

/// Whether one of the lanes is the shared turn lane.
pub open spec fn has_shared_turn_lane(lanes: Seq<LaneSpec>) -> bool {
    exists|i: int| 0 <= i < lanes.len() && (#[trigger] lanes[i]).lane_type
        == LaneType::SharedLeftTurn
}

/// The name of the sides on which something lies: `left`, `right` or
/// `both`.
pub open spec fn sides_name(left: bool, right: bool) -> Seq<char> {
    if left && right {
        "both"@
    } else if left {
        "left"@
    } else {
        "right"@
    }
}

/// The tags with the count of lanes, and `oneway=yes` where all lanes for
/// motor traffic run forward.
pub open spec fn counting_tags(lanes: Seq<LaneSpec>) -> Map<Seq<char>, Seq<char>> {
    let tags = Map::<Seq<char>, Seq<char>>::empty().insert("highway"@, "yes"@).insert(
        "lanes"@,
        decimal(counted_lanes(lanes)),
    );
    if all_driving_forward(lanes) {
        tags.insert("oneway"@, "yes"@)
    } else {
        tags
    }
}

/// The tags with the sidewalks: a sidewalk at the left or right end of the
/// lanes gives `sidewalk=left`, `right` or `both`.
pub open spec fn sidewalk_tags(
    lanes: Seq<LaneSpec>,
    tags: Map<Seq<char>, Seq<char>>,
) -> Map<Seq<char>, Seq<char>> {
    let left = lanes.first().is_for(Designated::Foot);
    let right = lanes.last().is_for(Designated::Foot);
    if left || right {
        tags.insert("sidewalk"@, sides_name(left, right))
    } else {
        tags
    }
}

/// The tags with the parking lanes: `parking:lane:left`, `right` or `both`
/// with the value `parallel`.
pub open spec fn parking_tags(
    lanes: Seq<LaneSpec>,
    tags: Map<Seq<char>, Seq<char>>,
) -> Map<Seq<char>, Seq<char>> {
    let left = parking_on_left(lanes);
    let right = parking_on_right(lanes);
    if left || right {
        tags.insert("parking:lane:"@ + sides_name(left, right), "parallel"@)
    } else {
        tags
    }
}

/// The tags with the cycle lanes: `cycleway:left`, `right` or `both` with
/// the value `lane`, and `cycleway:<side>:oneway=no` for a cycle lane that
/// serves both directions.
pub open spec fn cycleway_tags(
    lanes: Seq<LaneSpec>,
    tags: Map<Seq<char>, Seq<char>>,
) -> Map<Seq<char>, Seq<char>> {
    let left = left_cycle_lane(lanes, false);
    let right = right_cycle_lane(lanes, false);
    let tags = if left || right {
        tags.insert("cycleway:"@ + sides_name(left, right), "lane"@)
    } else {
        tags
    };
    let tags = if left_cycle_lane(lanes, true) {
        tags.insert("cycleway:left:oneway"@, "no"@)
    } else {
        tags
    };
    if right_cycle_lane(lanes, true) {
        tags.insert("cycleway:right:oneway"@, "no"@)
    } else {
        tags
    }
}

/// The tags with the shared turn lane.
pub open spec fn turn_lane_tags(
    lanes: Seq<LaneSpec>,
    tags: Map<Seq<char>, Seq<char>>,
) -> Map<Seq<char>, Seq<char>> {
    if has_shared_turn_lane(lanes) {
        tags.insert("lanes:both_ways"@, "1"@).insert("turn:lanes:both_ways"@, "left"@)
    } else {
        tags
    }
}

/// The tags that describe a list of lanes given from left to right.
pub open spec fn tags_of_lanes(lanes: Seq<LaneSpec>) -> Map<Seq<char>, Seq<char>> {
    turn_lane_tags(
        lanes,
        cycleway_tags(lanes, parking_tags(lanes, sidewalk_tags(lanes, counting_tags(lanes)))),
    )
}

fn count_lanes(lanes: &[LaneSpec]) -> (count: usize)
    ensures
        count == counted_lanes(lanes@),
{
    let mut count: usize = 0;
    let mut i: usize = 0;
    assert(lanes@.take(0) =~= Seq::empty());
    while i < lanes.len()
        invariant
            i <= lanes.len(),
            count <= i,
            count == counted_lanes(lanes@.take(i as int)),
        decreases lanes.len() - i,
    {
        proof {
            let prefix = lanes@.take(i as int + 1);
            assert(prefix.drop_last() =~= lanes@.take(i as int));
            assert(prefix.last() == lanes[i as int]);
        }
        let lane = &lanes[i];
        if lane.is_designated(Designated::Motor) || matches!(
            lane.lane_type,
            LaneType::SharedLeftTurn
        ) || lane.is_designated(Designated::Bus) {
            count += 1;
        }
        i += 1;
    }
    assert(lanes@.take(i as int) =~= lanes@);
    count
}

fn driving_all_forward(lanes: &[LaneSpec]) -> (all: bool)
    ensures
        all == all_driving_forward(lanes@),
{
    let mut i: usize = 0;
    while i < lanes.len()
        invariant
            i <= lanes.len(),
            forall|j: int|
                0 <= j < i && (#[trigger] lanes[j]).is_for(Designated::Motor)
                    ==> lanes[j].direction == Some(Direction::Forward),
        decreases lanes.len() - i,
    {
        if lanes[i].is_designated(Designated::Motor) && !matches!(
            lanes[i].direction,
            Some(Direction::Forward)
        ) {
            assert(lanes@[i as int].is_for(Designated::Motor));
            return false;
        }
        i += 1;
    }
    true
}

fn is_parking(lane: &LaneSpec) -> (held: bool)
    ensures
        held == (lane.lane_type == LaneType::Parking),
{
    matches!(lane.lane_type, LaneType::Parking)
}

fn is_both(lane: &LaneSpec) -> (held: bool)
    ensures
        held == (lane.direction == Some(Direction::Both)),
{
    matches!(lane.direction, Some(Direction::Both))
}

fn parking_sides(lanes: &[LaneSpec]) -> (sides: (bool, bool))
    ensures
        sides.0 == parking_on_left(lanes@),
        sides.1 == parking_on_right(lanes@),
{
    let mut left = false;
    let mut right = false;
    let mut driving = false;
    let mut i: usize = 0;
    while i < lanes.len()
        invariant
            i <= lanes.len(),
            driving == !no_driving_before(lanes@, i as int),
            left == exists|j: int|
                0 <= j < i && (#[trigger] lanes[j]).lane_type == LaneType::Parking
                    && no_driving_before(lanes@, j),
            right == exists|j: int|
                0 <= j < i && (#[trigger] lanes[j]).lane_type == LaneType::Parking
                    && !no_driving_before(lanes@, j),
        decreases lanes.len() - i,
    {
        if is_parking(&lanes[i]) {
            if driving {
                right = true;
            } else {
                left = true;
            }
        }
        if lanes[i].is_designated(Designated::Motor) {
            assert(lanes@[i as int].is_for(Designated::Motor));
            driving = true;
        }
        i += 1;
    }
    (left, right)
}

fn cycle_lane_on_left(lanes: &[LaneSpec]) -> (found: (bool, bool))
    ensures
        found.0 == left_cycle_lane(lanes@, false),
        found.1 == left_cycle_lane(lanes@, true),
{
    let mut i: usize = 0;
    while i < lanes.len()
        invariant
            i <= lanes.len(),
            no_driving_before(lanes@, i as int),
            forall|j: int| 0 <= j < i ==> !(#[trigger] lanes[j]).is_for(Designated::Bicycle),
        decreases lanes.len() - i,
    {
        if lanes[i].is_designated(Designated::Bicycle) {
            assert(left_cycle_lane_at(lanes@, i as int));
            assert forall|k: int| left_cycle_lane_at(lanes@, k) implies k == i by {
                if k < i {
                    assert(!lanes@[k].is_for(Designated::Bicycle));
                } else if k > i {
                    assert(lanes@[i as int].is_for(Designated::Bicycle));
                }
            }
            return (true, is_both(&lanes[i]));
        }
        if lanes[i].is_designated(Designated::Motor) {
            assert forall|k: int| !left_cycle_lane_at(lanes@, k) by {
                if 0 <= k < lanes.len() && k > i {
                    assert(lanes@[i as int].is_for(Designated::Motor));
                } else if 0 <= k < i {
                    assert(!lanes@[k].is_for(Designated::Bicycle));
                }
            }
            return (false, false);
        }
        i += 1;
    }
    assert forall|k: int| !left_cycle_lane_at(lanes@, k) by {
        if 0 <= k < lanes.len() {
            assert(!lanes@[k].is_for(Designated::Bicycle));
        }
    }
    (false, false)
}

fn cycle_lane_on_right(lanes: &[LaneSpec]) -> (found: (bool, bool))
    ensures
        found.0 == right_cycle_lane(lanes@, false),
        found.1 == right_cycle_lane(lanes@, true),
{
    let mut i: usize = lanes.len();
    while i > 0
        invariant
            i <= lanes.len(),
            no_driving_after(lanes@, i as int - 1),
            forall|j: int| i <= j < lanes.len() ==> !(#[trigger] lanes[j]).is_for(
                Designated::Bicycle,
            ),
        decreases i,
    {
        i -= 1;
        if lanes[i].is_designated(Designated::Bicycle) {
            assert(right_cycle_lane_at(lanes@, i as int));
            assert forall|k: int| right_cycle_lane_at(lanes@, k) implies k == i by {
                if k > i {
                    assert(!lanes@[k].is_for(Designated::Bicycle));
                } else if k < i {
                    assert(lanes@[i as int].is_for(Designated::Bicycle));
                }
            }
            return (true, is_both(&lanes[i]));
        }
        if lanes[i].is_designated(Designated::Motor) {
            assert forall|k: int| !right_cycle_lane_at(lanes@, k) by {
                if 0 <= k < i {
                    assert(lanes@[i as int].is_for(Designated::Motor));
                } else if i < k < lanes.len() {
                    assert(!lanes@[k].is_for(Designated::Bicycle));
                }
            }
            return (false, false);
        }
    }
    assert forall|k: int| !right_cycle_lane_at(lanes@, k) by {
        if 0 <= k < lanes.len() {
            assert(!lanes@[k].is_for(Designated::Bicycle));
        }
    }
    (false, false)
}

fn shared_turn_lane(lanes: &[LaneSpec]) -> (found: bool)
    ensures
        found == has_shared_turn_lane(lanes@),
{
    let mut i: usize = 0;
    while i < lanes.len()
        invariant
            i <= lanes.len(),
            forall|j: int| 0 <= j < i ==> (#[trigger] lanes[j]).lane_type
                != LaneType::SharedLeftTurn,
        decreases lanes.len() - i,
    {
        if matches!(lanes[i].lane_type, LaneType::SharedLeftTurn) {
            return true;
        }
        i += 1;
    }
    false
}

fn sides(left: bool, right: bool) -> (name: &'static str)
    ensures
        name@ == sides_name(left, right),
{
    if left && right {
        "both"
    } else if left {
        "left"
    } else {
        "right"
    }
}

/// The tags that describe a list of lanes given from left to right. An
/// empty list has no tags and is an error.
pub fn lanes_to_tags(lanes: &[LaneSpec], _locale: &Locale) -> (result: Result<Tags, LaneSpecError>)
    ensures
        match result {
            Ok(tags) => lanes@.len() > 0 && tags@ == tags_of_lanes(lanes@),
            Err(e) => lanes@.len() == 0 && e@ == "no lanes"@,
        },
{
    if lanes.len() == 0 {
        return Err(LaneSpecError(String::from_str("no lanes")));
    }
    let mut tags = Tags::new();
    tags.insert("highway", "yes");
    let lane_count = count_lanes(lanes);
    tags.insert("lanes", count_to_string(lane_count).as_str());
    // Oneway
    if driving_all_forward(lanes) {
        tags.insert("oneway", "yes");
    }
    assert(tags@ == counting_tags(lanes@));
    // Pedestrian
    let left = lanes[0].is_designated(Designated::Foot);
    let right = lanes[lanes.len() - 1].is_designated(Designated::Foot);
    if left || right {
        tags.insert("sidewalk", sides(left, right));
    }
    assert(tags@ == sidewalk_tags(lanes@, counting_tags(lanes@)));
    // Parking
    let (left, right) = parking_sides(lanes);
    if left || right {
        let key = String::from_str("parking:lane:").concat(sides(left, right));
        tags.insert(key.as_str(), "parallel");
    }
    let ghost parked = tags@;
    assert(parked == parking_tags(lanes@, sidewalk_tags(lanes@, counting_tags(lanes@))));
    // Cycleway
    let (left, left_both) = cycle_lane_on_left(lanes);
    let (right, right_both) = cycle_lane_on_right(lanes);
    if left || right {
        let key = String::from_str("cycleway:").concat(sides(left, right));
        tags.insert(key.as_str(), "lane");
    }
    if left_both {
        tags.insert("cycleway:left:oneway", "no");
    }
    if right_both {
        tags.insert("cycleway:right:oneway", "no");
    }
    assert(tags@ == cycleway_tags(lanes@, parked));
    if shared_turn_lane(lanes) {
        tags.insert("lanes:both_ways", "1");
        tags.insert("turn:lanes:both_ways", "left");
    }
    Ok(tags)
}

} // verus!
