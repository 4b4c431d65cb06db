use vstd::prelude::*;
use crate::road::{LaneView, RoadView};
use crate::transform::config::Config;
use crate::transform::error::RoadErrorView;
use crate::transform::road_to_tags::{lemma_short_lanes_separated, lemma_short_lanes_without_separators, short_lane, short_lanes};
use crate::transform::tags_to_lanes::{finished, lanes_left_to_right, road_from_tags, RoadFromTagsView};
use crate::locale::{DrivingSide, Locale};
use crate::road::{Designated, Direction};
use crate::highway::{highway_named, HighwayType};
use crate::tag::{has_subtree, key_under, tag_get};
use crate::transform::unsupported::access_keys;
use crate::text::{count_digits, decimal, digit_char, digits_value, is_digit, parse_count_spec};
use crate::tag::tag_is;
use crate::transform::assemble::left_to_right;
use crate::transform::builder::{LaneBuilder, LaneType, Outcome, RoadBuilderView};
use crate::transform::driving::{backward_count, bus_only, count_of, counts_doubtful, empty_road, forward_count, is_oneway, under_construction, with_driving_lanes};
use crate::transform::error::RoadMsgView;
use crate::transform::lane_spec::{lane_specs_without_warnings, short_warning};
use crate::transform::modes::bus::bus_outcome;
use crate::transform::modes::foot_shoulder::{lacks_sidewalk, shoulders_inferred, shoulders_ruled_out, with_foot_and_shoulder, with_sidewalks};
use crate::transform::modes::non_motorized::{is_non_motorized, non_motorized_classes};
use crate::transform::modes::parking::with_parking;
use crate::transform::oneway::Oneway;
use crate::transform::symmetry::{adds_cycle_lanes, cycle_free, lemma_bicycle_idle};
use crate::transform::tags_to_lanes::{after_mode_passes, inferred_road};
use crate::transform::unsupported::{restricts_access, unsupported_error, unsupported_warnings};
use crate::transform::lane_spec::LaneSpec;
use crate::transform::lanes_to_tags::{all_driving_forward, counted_lanes, counting_tags, counts_as_lane, has_shared_turn_lane, left_cycle_lane, left_cycle_lane_at, parking_on_left, parking_on_right, right_cycle_lane, right_cycle_lane_at, tags_of_lanes};

verus! {

/// A lane for motor traffic, in short.
pub open spec fn motor_lane(direction: Direction) -> LaneSpec {
    LaneSpec {
        lane_type: LaneType::Travel,
        designated: Some(Designated::Motor),
        direction: Some(direction),
    }
}

/// A shoulder, in short.
pub open spec fn shoulder_lane() -> LaneSpec {
    LaneSpec {
        lane_type: LaneType::Shoulder,
        designated: None,
        direction: Some(Direction::Both),
    }
}

/// A sidewalk, in short.
pub open spec fn sidewalk_lane() -> LaneSpec {
    LaneSpec { lane_type: LaneType::Travel, designated: Some(Designated::Foot), direction: None }
}

/// What lines a side of a plain road at its outer edge: a sidewalk if the
/// road has sidewalks, else a shoulder if the locale infers one, else
/// nothing.
pub open spec fn plain_edge(sidewalks: bool, locale: Locale) -> Seq<LaneSpec> {
    if sidewalks {
        seq![sidewalk_lane()]
    } else if locale.inferred_sidewalks {
        seq![shoulder_lane()]
    } else {
        Seq::<LaneSpec>::empty()
    }
}

/// One side of a plain road, from the middle outwards: `count` lanes for
/// motor traffic, and what lines the side.
pub open spec fn plain_side(direction: Direction, count: nat, edge: Seq<LaneSpec>) -> Seq<
    LaneSpec,
> {
    Seq::new(count, |i: int| motor_lane(direction)) + edge
}

/// The backward side of a plain road: nothing at all where no lane runs
/// backward and the road has no sidewalks.
pub open spec fn plain_backward_side(backward: nat, sidewalks: bool, locale: Locale) -> Seq<
    LaneSpec,
> {
    if backward == 0 && !sidewalks {
        Seq::<LaneSpec>::empty()
    } else {
        plain_side(Direction::Backward, backward, plain_edge(sidewalks, locale))
    }
}

/// A plain road from left to right: lanes for motor traffic in each
/// direction, lined by sidewalks on both sides, or by shoulders where the
/// locale infers them.
pub open spec fn plain_road(forward: nat, backward: nat, sidewalks: bool, locale: Locale) -> Seq<
    LaneSpec,
> {
    let ahead = plain_side(Direction::Forward, forward, plain_edge(sidewalks, locale));
    let back = plain_backward_side(backward, sidewalks, locale);
    match locale.driving_side {
        DrivingSide::Right => back.reverse() + ahead,
        DrivingSide::Left => ahead.reverse() + back,
    }
}

/// Whether the count of lanes alone tells how many run each way: a oneway
/// with at least one lane, or a two-way road with as many lanes forward as
/// backward, or one more.
pub open spec fn evenly_split(forward: nat, backward: nat) -> bool {
    ||| backward == 0 && forward >= 1
    ||| backward >= 1 && (forward == backward || forward == backward + 1)
}

/// The tags of a plain road: its count of lanes, `oneway=yes` if no lane
/// runs backward, and `sidewalk=both` if it has sidewalks.
pub open spec fn plain_tags(lanes: nat, oneway: bool, sidewalks: bool) -> Map<
    Seq<char>,
    Seq<char>,
> {
    let tags = Map::<Seq<char>, Seq<char>>::empty().insert("highway"@, "yes"@).insert(
        "lanes"@,
        decimal(lanes),
    );
    let tags = if oneway {
        tags.insert("oneway"@, "yes"@)
    } else {
        tags
    };
    if sidewalks {
        tags.insert("sidewalk"@, "both"@)
    } else {
        tags
    }
}

/// Whether the lane is one of a plain road.
pub open spec fn is_plain_lane(lane: LaneSpec) -> bool {
    lane == motor_lane(Direction::Forward) || lane == motor_lane(Direction::Backward) || lane
        == shoulder_lane() || lane == sidewalk_lane()
}

proof fn lemma_counted_concat(first: Seq<LaneSpec>, second: Seq<LaneSpec>)
    ensures
        counted_lanes(first + second) == counted_lanes(first) + counted_lanes(second),
    decreases second.len(),
{
    if second.len() == 0 {
        assert(first + second =~= first);
    } else {
        lemma_counted_concat(first, second.drop_last());
        assert((first + second).drop_last() =~= first + second.drop_last());
        assert((first + second).last() == second.last());
    }
}

proof fn lemma_counted_reverse(lanes: Seq<LaneSpec>)
    ensures
        counted_lanes(lanes.reverse()) == counted_lanes(lanes),
    decreases lanes.len(),
{
    if lanes.len() == 0 {
        assert(lanes.reverse() =~= lanes);
    } else {
        let shorter = lanes.drop_last();
        lemma_counted_reverse(shorter);
        assert(lanes.reverse() =~= seq![lanes.last()] + shorter.reverse());
        lemma_counted_concat(seq![lanes.last()], shorter.reverse());
        assert(seq![lanes.last()].drop_last() =~= Seq::<LaneSpec>::empty());
        assert(counted_lanes(Seq::<LaneSpec>::empty()) == 0);
        assert(seq![lanes.last()].last() == lanes.last());
    }
}

proof fn lemma_counted_side(direction: Direction, count: nat, sidewalks: bool, locale: Locale)
    ensures
        counted_lanes(plain_side(direction, count, plain_edge(sidewalks, locale))) == count,
{
    let lanes = Seq::new(count, |i: int| motor_lane(direction));
    lemma_counted_motor(direction, count);
    let edge = plain_edge(sidewalks, locale);
    lemma_counted_concat(lanes, edge);
    if edge.len() > 0 {
        assert(edge.drop_last() =~= Seq::<LaneSpec>::empty());
        assert(counted_lanes(Seq::<LaneSpec>::empty()) == 0);
        assert(!counts_as_lane(edge.last()));
    }
}

proof fn lemma_counted_motor(direction: Direction, count: nat)
    ensures
        counted_lanes(Seq::new(count, |i: int| motor_lane(direction))) == count,
    decreases count,
{
    let lanes = Seq::new(count, |i: int| motor_lane(direction));
    if count > 0 {
        lemma_counted_motor(direction, (count - 1) as nat);
        assert(lanes.drop_last() =~= Seq::new((count - 1) as nat, |i: int| motor_lane(direction)));
        assert(counts_as_lane(lanes.last()));
    }
}

/// What a plain road is made of: only lanes for motor traffic, shoulders
/// and sidewalks; at least one lane; as many counted lanes as it has lanes
/// for motor traffic; a backward lane exactly if the backward side has one;
/// and a sidewalk at each end exactly if it has sidewalks.
pub proof fn lemma_plain_road(forward: nat, backward: nat, sidewalks: bool, locale: Locale)
    requires
        forward >= 1,
    ensures
        plain_road(forward, backward, sidewalks, locale).len() > 0,
        forall|i: int|
            0 <= i < plain_road(forward, backward, sidewalks, locale).len() ==> is_plain_lane(
                #[trigger] plain_road(forward, backward, sidewalks, locale)[i],
            ),
        counted_lanes(plain_road(forward, backward, sidewalks, locale)) == forward + backward,
        all_driving_forward(plain_road(forward, backward, sidewalks, locale)) == (backward == 0),
        plain_road(forward, backward, sidewalks, locale).first().is_for(Designated::Foot)
            == sidewalks,
        plain_road(forward, backward, sidewalks, locale).last().is_for(Designated::Foot)
            == sidewalks,
{
    let edge = plain_edge(sidewalks, locale);
    let ahead = plain_side(Direction::Forward, forward, edge);
    let back = plain_backward_side(backward, sidewalks, locale);
    let road = plain_road(forward, backward, sidewalks, locale);
    lemma_counted_side(Direction::Forward, forward, sidewalks, locale);
    if back.len() > 0 {
        lemma_counted_side(Direction::Backward, backward, sidewalks, locale);
    } else {
        assert(counted_lanes(back) == 0);
    }
    lemma_counted_reverse(back);
    lemma_counted_reverse(ahead);
    lemma_counted_concat(back.reverse(), ahead);
    lemma_counted_concat(ahead.reverse(), back);
    assert forall|i: int| 0 <= i < ahead.len() implies #[trigger] ahead[i] == (if i < forward {
        motor_lane(Direction::Forward)
    } else {
        edge[0]
    }) by {}
    assert forall|i: int| 0 <= i < back.len() implies #[trigger] back[i] == (if i < backward {
        motor_lane(Direction::Backward)
    } else {
        edge[0]
    }) by {}
    assert(edge.len() > 0 ==> edge[0] == shoulder_lane() || edge[0] == sidewalk_lane());
    assert forall|i: int| 0 <= i < road.len() implies is_plain_lane(#[trigger] road[i]) by {
        match locale.driving_side {
            DrivingSide::Right => {
                if i < back.len() {
                    assert(road[i] == back[back.len() - 1 - i]);
                } else {
                    assert(road[i] == ahead[i - back.len()]);
                }
            },
            DrivingSide::Left => {
                if i < ahead.len() {
                    assert(road[i] == ahead[ahead.len() - 1 - i]);
                } else {
                    assert(road[i] == back[i - ahead.len()]);
                }
            },
        }
    }
    assert(ahead[0] == motor_lane(Direction::Forward));
    assert(ahead.last().is_for(Designated::Foot) == sidewalks);
    assert(back.len() > 0 ==> back.last().is_for(Designated::Foot) == sidewalks);
    match locale.driving_side {
        DrivingSide::Right => {
            assert(road.last() == ahead.last());
            if back.len() > 0 {
                assert(road.first() == back.last());
            } else {
                assert(road.first() == ahead[0]);
            }
        },
        DrivingSide::Left => {
            assert(road.first() == ahead.last());
            if back.len() > 0 {
                assert(road.last() == back.last());
            } else {
                assert(road.last() == ahead[0]);
            }
        },
    }
    if backward == 0 {
        assert forall|i: int|
            0 <= i < road.len() && (#[trigger] road[i]).is_for(Designated::Motor) implies road[i].direction
            == Some(Direction::Forward) by {
            match locale.driving_side {
                DrivingSide::Right => {
                    if i < back.len() {
                        assert(road[i] == back[back.len() - 1 - i]);
                    } else {
                        assert(road[i] == ahead[i - back.len()]);
                    }
                },
                DrivingSide::Left => {
                    if i < ahead.len() {
                        assert(road[i] == ahead[ahead.len() - 1 - i]);
                    } else {
                        assert(road[i] == back[i - ahead.len()]);
                    }
                },
            }
        }
    } else {
        assert(back[0] == motor_lane(Direction::Backward));
        let at: int = match locale.driving_side {
            DrivingSide::Right => back.len() - 1,
            DrivingSide::Left => ahead.len() as int,
        };
        assert(road[at] == back[0]);
        assert(road[at].is_for(Designated::Motor));
        assert(road[at].direction != Some(Direction::Forward));
    }
}

/// The tags of a plain road say how many lanes it has, whether it is a
/// oneway and whether it has sidewalks, and nothing else.
pub proof fn lemma_tags_of_plain_road(
    forward: nat,
    backward: nat,
    sidewalks: bool,
    locale: Locale,
)
    requires
        forward >= 1,
    ensures
        tags_of_lanes(plain_road(forward, backward, sidewalks, locale)) == plain_tags(
            forward + backward,
            backward == 0,
            sidewalks,
        ),
{
    let road = plain_road(forward, backward, sidewalks, locale);
    lemma_plain_road(forward, backward, sidewalks, locale);
    assert(crate::transform::lanes_to_tags::sidewalk_tags(road, counting_tags(road)) == plain_tags(
        forward + backward,
        backward == 0,
        sidewalks,
    ));
    assert(!parking_on_left(road)) by {
        if parking_on_left(road) {
            let i = choose|i: int|
                0 <= i < road.len() && (#[trigger] road[i]).lane_type == LaneType::Parking;
            assert(is_plain_lane(road[i]));
        }
    }
    assert(!parking_on_right(road)) by {
        if parking_on_right(road) {
            let i = choose|i: int|
                0 <= i < road.len() && (#[trigger] road[i]).lane_type == LaneType::Parking;
            assert(is_plain_lane(road[i]));
        }
    }
    assert forall|i: int| !left_cycle_lane_at(road, i) by {
        if 0 <= i < road.len() {
            assert(is_plain_lane(road[i]));
        }
    }
    assert forall|i: int| !right_cycle_lane_at(road, i) by {
        if 0 <= i < road.len() {
            assert(is_plain_lane(road[i]));
        }
    }
    assert(!left_cycle_lane(road, false) && !left_cycle_lane(road, true));
    assert(!right_cycle_lane(road, false) && !right_cycle_lane(road, true));
    assert(!has_shared_turn_lane(road)) by {
        if has_shared_turn_lane(road) {
            let i = choose|i: int|
                0 <= i < road.len() && (#[trigger] road[i]).lane_type == LaneType::SharedLeftTurn;
            assert(is_plain_lane(road[i]));
        }
    }
}

/// A count written in decimal is made of digits alone, and stands for the
/// count.
pub proof fn lemma_decimal_digits(n: nat)
    ensures
        decimal(n).len() > 0,
        forall|i: int| 0 <= i < decimal(n).len() ==> is_digit(#[trigger] decimal(n)[i]),
        digits_value(decimal(n)) == n,
    decreases n,
{
    if n >= 10 {
        lemma_decimal_digits(n / 10);
        let shorter = decimal(n / 10);
        let digit = digit_char(n % 10);
        assert(decimal(n) == shorter.push(digit));
        assert(decimal(n).drop_last() =~= shorter);
        assert(digit as u32 - '0' as u32 == n % 10);
    } else {
        assert(decimal(n).drop_last() =~= Seq::<char>::empty());
        assert(digits_value(Seq::<char>::empty()) == 0);
        assert(digit_char(n) as u32 - '0' as u32 == n);
    }
}

/// A count that fits the machine word is read back from its decimal form.
pub proof fn lemma_decimal_parses(n: nat)
    requires
        n <= usize::MAX,
    ensures
        parse_count_spec(decimal(n)) == Some(n as usize),
{
    lemma_decimal_digits(n);
    assert(is_digit(decimal(n)[0]));
    assert(count_digits(decimal(n)) == decimal(n));
}

} // verus!

verus! {

/// Whether `key` is none of the keys that the tags of a plain road hold.
pub open spec fn unrelated(key: Seq<char>) -> bool {
    key != "highway"@ && key != "lanes"@ && key != "oneway"@ && key != "sidewalk"@
}

/// The tags of a plain road hold their own keys and no other.
pub proof fn lemma_plain_tags_hold(lanes: nat, oneway: bool, sidewalks: bool)
    ensures
        tag_get(plain_tags(lanes, oneway, sidewalks), "highway"@) == Some("yes"@),
        tag_get(plain_tags(lanes, oneway, sidewalks), "lanes"@) == Some(decimal(lanes)),
        tag_get(plain_tags(lanes, oneway, sidewalks), "oneway"@) == (if oneway {
            Some("yes"@)
        } else {
            None
        }),
        tag_get(plain_tags(lanes, oneway, sidewalks), "sidewalk"@) == (if sidewalks {
            Some("both"@)
        } else {
            None
        }),
        forall|key: Seq<char>|
            unrelated(key) ==> !(#[trigger] plain_tags(lanes, oneway, sidewalks).contains_key(
                key,
            )),
        forall|key: Seq<char>| #[trigger]
            plain_tags(lanes, oneway, sidewalks).contains_key(key) ==> !unrelated(key),
{
    reveal_strlit("highway");
    reveal_strlit("lanes");
    reveal_strlit("oneway");
    reveal_strlit("sidewalk");
    assert("highway"@.len() == 7);
    assert("lanes"@.len() == 5);
    assert("oneway"@.len() == 6);
    assert("sidewalk"@.len() == 8);
}

/// The keys that the inference reads beside those of a plain road.
pub proof fn lemma_unrelated_keys()
    ensures
        unrelated("junction"@),
        unrelated("lanes:both_ways"@),
        unrelated("lanes:forward"@),
        unrelated("lanes:backward"@),
        unrelated("centre_turn_lane"@),
        unrelated("motor_vehicle:conditional"@),
        unrelated("cycleway"@),
        unrelated("cycleway:both"@),
        unrelated("cycleway:left"@),
        unrelated("cycleway:right"@),
        unrelated("cycleway:right:separation:left"@),
        unrelated("cycleway:left:separation:left"@),
        unrelated("cycleway:left:separation:right"@),
        unrelated("parking:lane:right"@),
        unrelated("parking:lane:both"@),
        unrelated("parking:lane:left"@),
        unrelated("foot"@),
        unrelated("motorroad"@),
{
    reveal_strlit("highway");
    reveal_strlit("lanes");
    reveal_strlit("oneway");
    reveal_strlit("sidewalk");
    reveal_strlit("junction");
    reveal_strlit("lanes:both_ways");
    reveal_strlit("lanes:forward");
    reveal_strlit("lanes:backward");
    reveal_strlit("centre_turn_lane");
    reveal_strlit("motor_vehicle:conditional");
    reveal_strlit("cycleway");
    reveal_strlit("cycleway:both");
    reveal_strlit("cycleway:left");
    reveal_strlit("cycleway:right");
    reveal_strlit("cycleway:right:separation:left");
    reveal_strlit("cycleway:left:separation:left");
    reveal_strlit("cycleway:left:separation:right");
    reveal_strlit("parking:lane:right");
    reveal_strlit("parking:lane:both");
    reveal_strlit("parking:lane:left");
    reveal_strlit("foot");
    reveal_strlit("motorroad");
    assert("highway"@.len() == 7);
    assert("lanes"@.len() == 5);
    assert("oneway"@.len() == 6);
    assert("sidewalk"@.len() == 8);
    assert("junction"@.len() == 8);
    assert("lanes:both_ways"@.len() == 15);
    assert("lanes:forward"@.len() == 13);
    assert("lanes:backward"@.len() == 14);
    assert("centre_turn_lane"@.len() == 16);
    assert("motor_vehicle:conditional"@.len() == 25);
    assert("cycleway"@.len() == 8);
    assert("cycleway:both"@.len() == 13);
    assert("cycleway:left"@.len() == 13);
    assert("cycleway:right"@.len() == 14);
    assert("cycleway:right:separation:left"@.len() == 30);
    assert("cycleway:left:separation:left"@.len() == 29);
    assert("cycleway:left:separation:right"@.len() == 30);
    assert("parking:lane:right"@.len() == 18);
    assert("parking:lane:both"@.len() == 17);
    assert("parking:lane:left"@.len() == 17);
    assert("foot"@.len() == 4);
    assert("motorroad"@.len() == 9);
    assert("junction"@[0] != "sidewalk"@[0]);
    assert("cycleway"@[0] != "sidewalk"@[0]);
}

proof fn lemma_unrelated_access_keys_0()
    ensures
        unrelated("access"@),
        unrelated("dog"@),
        unrelated("ski"@),
        unrelated("inline_skates"@),
        unrelated("horse"@),
        unrelated("vehicle"@),
        unrelated("bicycle"@),
        unrelated("electric_bicycle"@),
        unrelated("carriage"@),
        unrelated("hand_cart"@),
        unrelated("quadracycle"@),
        unrelated("trailer"@),
        unrelated("caravan"@),
        unrelated("motor_vehicle"@),
        unrelated("motorcycle"@),
{
    reveal_strlit("highway");
    reveal_strlit("lanes");
    reveal_strlit("oneway");
    reveal_strlit("sidewalk");
    reveal_strlit("access");
    reveal_strlit("dog");
    reveal_strlit("ski");
    reveal_strlit("inline_skates");
    reveal_strlit("horse");
    reveal_strlit("vehicle");
    reveal_strlit("bicycle");
    reveal_strlit("electric_bicycle");
    reveal_strlit("carriage");
    reveal_strlit("hand_cart");
    reveal_strlit("quadracycle");
    reveal_strlit("trailer");
    reveal_strlit("caravan");
    reveal_strlit("motor_vehicle");
    reveal_strlit("motorcycle");
    assert("highway"@.len() == 7);
    assert("lanes"@.len() == 5);
    assert("oneway"@.len() == 6);
    assert("sidewalk"@.len() == 8);
    assert("access"@.len() == 6);
    assert("dog"@.len() == 3);
    assert("ski"@.len() == 3);
    assert("inline_skates"@.len() == 13);
    assert("horse"@.len() == 5);
    assert("vehicle"@.len() == 7);
    assert("bicycle"@.len() == 7);
    assert("electric_bicycle"@.len() == 16);
    assert("carriage"@.len() == 8);
    assert("hand_cart"@.len() == 9);
    assert("quadracycle"@.len() == 11);
    assert("trailer"@.len() == 7);
    assert("caravan"@.len() == 7);
    assert("motor_vehicle"@.len() == 13);
    assert("motorcycle"@.len() == 10);
    assert("access"@[0] != "oneway"@[0]);
    assert("horse"@[0] != "lanes"@[0]);
    assert("vehicle"@[0] != "highway"@[0]);
    assert("bicycle"@[0] != "highway"@[0]);
    assert("carriage"@[0] != "sidewalk"@[0]);
    assert("trailer"@[0] != "highway"@[0]);
    assert("caravan"@[0] != "highway"@[0]);
}

proof fn lemma_unrelated_access_keys_1()
    ensures
        unrelated("moped"@),
        unrelated("mofa"@),
        unrelated("motorcar"@),
        unrelated("motorhome"@),
        unrelated("tourist_bus"@),
        unrelated("coach"@),
        unrelated("goods"@),
        unrelated("hgv"@),
        unrelated("hgv_articulated"@),
        unrelated("bdouble"@),
        unrelated("agricultural"@),
        unrelated("golf_cart"@),
        unrelated("atv"@),
        unrelated("snowmobile"@),
        unrelated("psv"@),
{
    reveal_strlit("highway");
    reveal_strlit("lanes");
    reveal_strlit("oneway");
    reveal_strlit("sidewalk");
    reveal_strlit("moped");
    reveal_strlit("mofa");
    reveal_strlit("motorcar");
    reveal_strlit("motorhome");
    reveal_strlit("tourist_bus");
    reveal_strlit("coach");
    reveal_strlit("goods");
    reveal_strlit("hgv");
    reveal_strlit("hgv_articulated");
    reveal_strlit("bdouble");
    reveal_strlit("agricultural");
    reveal_strlit("golf_cart");
    reveal_strlit("atv");
    reveal_strlit("snowmobile");
    reveal_strlit("psv");
    assert("highway"@.len() == 7);
    assert("lanes"@.len() == 5);
    assert("oneway"@.len() == 6);
    assert("sidewalk"@.len() == 8);
    assert("moped"@.len() == 5);
    assert("mofa"@.len() == 4);
    assert("motorcar"@.len() == 8);
    assert("motorhome"@.len() == 9);
    assert("tourist_bus"@.len() == 11);
    assert("coach"@.len() == 5);
    assert("goods"@.len() == 5);
    assert("hgv"@.len() == 3);
    assert("hgv_articulated"@.len() == 15);
    assert("bdouble"@.len() == 7);
    assert("agricultural"@.len() == 12);
    assert("golf_cart"@.len() == 9);
    assert("atv"@.len() == 3);
    assert("snowmobile"@.len() == 10);
    assert("psv"@.len() == 3);
    assert("moped"@[0] != "lanes"@[0]);
    assert("motorcar"@[0] != "sidewalk"@[0]);
    assert("coach"@[0] != "lanes"@[0]);
    assert("goods"@[0] != "lanes"@[0]);
    assert("bdouble"@[0] != "highway"@[0]);
}

proof fn lemma_unrelated_access_keys_2()
    ensures
        unrelated("bus"@),
        unrelated("taxi"@),
        unrelated("minibus"@),
        unrelated("share_taxi"@),
        unrelated("hov"@),
        unrelated("car_sharing"@),
        unrelated("emergency"@),
        unrelated("hazmat"@),
        unrelated("disabled"@),
        unrelated("roadtrain"@),
        unrelated("hgv_caravan"@),
        unrelated("lhv"@),
        unrelated("tank"@),
{
    reveal_strlit("highway");
    reveal_strlit("lanes");
    reveal_strlit("oneway");
    reveal_strlit("sidewalk");
    reveal_strlit("bus");
    reveal_strlit("taxi");
    reveal_strlit("minibus");
    reveal_strlit("share_taxi");
    reveal_strlit("hov");
    reveal_strlit("car_sharing");
    reveal_strlit("emergency");
    reveal_strlit("hazmat");
    reveal_strlit("disabled");
    reveal_strlit("roadtrain");
    reveal_strlit("hgv_caravan");
    reveal_strlit("lhv");
    reveal_strlit("tank");
    assert("highway"@.len() == 7);
    assert("lanes"@.len() == 5);
    assert("oneway"@.len() == 6);
    assert("sidewalk"@.len() == 8);
    assert("bus"@.len() == 3);
    assert("taxi"@.len() == 4);
    assert("minibus"@.len() == 7);
    assert("share_taxi"@.len() == 10);
    assert("hov"@.len() == 3);
    assert("car_sharing"@.len() == 11);
    assert("emergency"@.len() == 9);
    assert("hazmat"@.len() == 6);
    assert("disabled"@.len() == 8);
    assert("roadtrain"@.len() == 9);
    assert("hgv_caravan"@.len() == 11);
    assert("lhv"@.len() == 3);
    assert("tank"@.len() == 4);
    assert("minibus"@[0] != "highway"@[0]);
    assert("hazmat"@[0] != "oneway"@[0]);
    assert("disabled"@[0] != "sidewalk"@[0]);
}

/// No access key is a key of a plain road.
pub proof fn lemma_access_keys_unrelated()
    ensures
        forall|i: int| 0 <= i < access_keys().len() ==> unrelated(#[trigger] access_keys()[i]),
{
    lemma_unrelated_access_keys_0();
    lemma_unrelated_access_keys_1();
    lemma_unrelated_access_keys_2();
    let keys = access_keys();
    assert(keys.len() == 43);
    assert(keys[0] == "access"@);
    assert(keys[1] == "dog"@);
    assert(keys[2] == "ski"@);
    assert(keys[3] == "inline_skates"@);
    assert(keys[4] == "horse"@);
    assert(keys[5] == "vehicle"@);
    assert(keys[6] == "bicycle"@);
    assert(keys[7] == "electric_bicycle"@);
    assert(keys[8] == "carriage"@);
    assert(keys[9] == "hand_cart"@);
    assert(keys[10] == "quadracycle"@);
    assert(keys[11] == "trailer"@);
    assert(keys[12] == "caravan"@);
    assert(keys[13] == "motor_vehicle"@);
    assert(keys[14] == "motorcycle"@);
    assert(keys[15] == "moped"@);
    assert(keys[16] == "mofa"@);
    assert(keys[17] == "motorcar"@);
    assert(keys[18] == "motorhome"@);
    assert(keys[19] == "tourist_bus"@);
    assert(keys[20] == "coach"@);
    assert(keys[21] == "goods"@);
    assert(keys[22] == "hgv"@);
    assert(keys[23] == "hgv_articulated"@);
    assert(keys[24] == "bdouble"@);
    assert(keys[25] == "agricultural"@);
    assert(keys[26] == "golf_cart"@);
    assert(keys[27] == "atv"@);
    assert(keys[28] == "snowmobile"@);
    assert(keys[29] == "psv"@);
    assert(keys[30] == "bus"@);
    assert(keys[31] == "taxi"@);
    assert(keys[32] == "minibus"@);
    assert(keys[33] == "share_taxi"@);
    assert(keys[34] == "hov"@);
    assert(keys[35] == "car_sharing"@);
    assert(keys[36] == "emergency"@);
    assert(keys[37] == "hazmat"@);
    assert(keys[38] == "disabled"@);
    assert(keys[39] == "roadtrain"@);
    assert(keys[40] == "hgv_caravan"@);
    assert(keys[41] == "lhv"@);
    assert(keys[42] == "tank"@);
    assert forall|i: int| 0 <= i < keys.len() implies unrelated(#[trigger] keys[i]) by {
        if i == 0 {
            assert(unrelated(keys[0]));
        }
        if i == 1 {
            assert(unrelated(keys[1]));
        }
        if i == 2 {
            assert(unrelated(keys[2]));
        }
        if i == 3 {
            assert(unrelated(keys[3]));
        }
        if i == 4 {
            assert(unrelated(keys[4]));
        }
        if i == 5 {
            assert(unrelated(keys[5]));
        }
        if i == 6 {
            assert(unrelated(keys[6]));
        }
        if i == 7 {
            assert(unrelated(keys[7]));
        }
        if i == 8 {
            assert(unrelated(keys[8]));
        }
        if i == 9 {
            assert(unrelated(keys[9]));
        }
        if i == 10 {
            assert(unrelated(keys[10]));
        }
        if i == 11 {
            assert(unrelated(keys[11]));
        }
        if i == 12 {
            assert(unrelated(keys[12]));
        }
        if i == 13 {
            assert(unrelated(keys[13]));
        }
        if i == 14 {
            assert(unrelated(keys[14]));
        }
        if i == 15 {
            assert(unrelated(keys[15]));
        }
        if i == 16 {
            assert(unrelated(keys[16]));
        }
        if i == 17 {
            assert(unrelated(keys[17]));
        }
        if i == 18 {
            assert(unrelated(keys[18]));
        }
        if i == 19 {
            assert(unrelated(keys[19]));
        }
        if i == 20 {
            assert(unrelated(keys[20]));
        }
        if i == 21 {
            assert(unrelated(keys[21]));
        }
        if i == 22 {
            assert(unrelated(keys[22]));
        }
        if i == 23 {
            assert(unrelated(keys[23]));
        }
        if i == 24 {
            assert(unrelated(keys[24]));
        }
        if i == 25 {
            assert(unrelated(keys[25]));
        }
        if i == 26 {
            assert(unrelated(keys[26]));
        }
        if i == 27 {
            assert(unrelated(keys[27]));
        }
        if i == 28 {
            assert(unrelated(keys[28]));
        }
        if i == 29 {
            assert(unrelated(keys[29]));
        }
        if i == 30 {
            assert(unrelated(keys[30]));
        }
        if i == 31 {
            assert(unrelated(keys[31]));
        }
        if i == 32 {
            assert(unrelated(keys[32]));
        }
        if i == 33 {
            assert(unrelated(keys[33]));
        }
        if i == 34 {
            assert(unrelated(keys[34]));
        }
        if i == 35 {
            assert(unrelated(keys[35]));
        }
        if i == 36 {
            assert(unrelated(keys[36]));
        }
        if i == 37 {
            assert(unrelated(keys[37]));
        }
        if i == 38 {
            assert(unrelated(keys[38]));
        }
        if i == 39 {
            assert(unrelated(keys[39]));
        }
        if i == 40 {
            assert(unrelated(keys[40]));
        }
        if i == 41 {
            assert(unrelated(keys[41]));
        }
        if i == 42 {
            assert(unrelated(keys[42]));
        }
    }
}

/// The value `yes` names no class of way, and is not `reversible`.
pub proof fn lemma_yes_names_nothing()
    ensures
        highway_named("yes"@) == HighwayType::Other,
        "yes"@ != "reversible"@,
        "yes"@ != "cycleway"@,
        "yes"@ != "footway"@,
        "yes"@ != "path"@,
        "yes"@ != "pedestrian"@,
        "yes"@ != "steps"@,
        "yes"@ != "track"@,
        "yes"@ != "motorway"@,
        "yes"@ != "motorway_link"@,
        "yes"@ != "construction"@,
        "yes"@ != "living_street"@,
{
    reveal_strlit("yes");
    reveal_strlit("reversible");
    reveal_strlit("motorway");
    reveal_strlit("motorway_link");
    reveal_strlit("trunk");
    reveal_strlit("trunk_link");
    reveal_strlit("primary");
    reveal_strlit("primary_link");
    reveal_strlit("secondary");
    reveal_strlit("secondary_link");
    reveal_strlit("tertiary");
    reveal_strlit("tertiary_link");
    reveal_strlit("unclassified");
    reveal_strlit("residential");
    reveal_strlit("living_street");
    reveal_strlit("service");
    reveal_strlit("construction");
    reveal_strlit("cycleway");
    reveal_strlit("footway");
    reveal_strlit("path");
    reveal_strlit("pedestrian");
    reveal_strlit("steps");
    reveal_strlit("track");
    assert("yes"@.len() == 3);
    assert("reversible"@.len() == 10);
    assert("motorway"@.len() == 8);
    assert("motorway_link"@.len() == 13);
    assert("trunk"@.len() == 5);
    assert("trunk_link"@.len() == 10);
    assert("primary"@.len() == 7);
    assert("primary_link"@.len() == 12);
    assert("secondary"@.len() == 9);
    assert("secondary_link"@.len() == 14);
    assert("tertiary"@.len() == 8);
    assert("tertiary_link"@.len() == 13);
    assert("unclassified"@.len() == 12);
    assert("residential"@.len() == 11);
    assert("living_street"@.len() == 13);
    assert("service"@.len() == 7);
    assert("construction"@.len() == 12);
    assert("cycleway"@.len() == 8);
    assert("footway"@.len() == 7);
    assert("path"@.len() == 4);
    assert("pedestrian"@.len() == 10);
    assert("steps"@.len() == 5);
    assert("track"@.len() == 5);
}

/// No key of a plain road lies at or below a prefix of a bus scheme.
pub proof fn lemma_plain_tags_without_buses(lanes: nat, oneway: bool, sidewalks: bool)
    ensures
        !has_subtree(plain_tags(lanes, oneway, sidewalks), "busway"@),
        !has_subtree(plain_tags(lanes, oneway, sidewalks), "lanes:bus"@),
        !has_subtree(plain_tags(lanes, oneway, sidewalks), "lanes:psv"@),
        !has_subtree(plain_tags(lanes, oneway, sidewalks), "bus:lanes"@),
        !has_subtree(plain_tags(lanes, oneway, sidewalks), "psv:lanes"@),
{
    lemma_plain_tags_hold(lanes, oneway, sidewalks);
    reveal_strlit("highway");
    reveal_strlit("lanes");
    reveal_strlit("oneway");
    reveal_strlit("sidewalk");
    reveal_strlit("busway");
    reveal_strlit("lanes:bus");
    reveal_strlit("lanes:psv");
    reveal_strlit("bus:lanes");
    reveal_strlit("psv:lanes");
    assert("highway"@.len() == 7);
    assert("lanes"@.len() == 5);
    assert("oneway"@.len() == 6);
    assert("sidewalk"@.len() == 8);
    assert("busway"@.len() == 6);
    assert("lanes:bus"@.len() == 9);
    assert("lanes:psv"@.len() == 9);
    assert("bus:lanes"@.len() == 9);
    assert("psv:lanes"@.len() == 9);
    assert forall|key: Seq<char>| !unrelated(key) implies !key_under("busway"@, key) by {
        let prefix = "busway"@ + seq![':'];
        assert("highway"@.subrange(0, 7)[0] != prefix[0]);
        assert("oneway"@[0] != "busway"@[0]);
        assert("sidewalk"@.subrange(0, 7)[0] != prefix[0]);
    }
    assert forall|key: Seq<char>| !unrelated(key) implies !key_under("lanes:bus"@, key) by {
        let prefix = "lanes:bus"@ + seq![':'];
    }
    assert forall|key: Seq<char>| !unrelated(key) implies !key_under("lanes:psv"@, key) by {
        let prefix = "lanes:psv"@ + seq![':'];
    }
    assert forall|key: Seq<char>| !unrelated(key) implies !key_under("bus:lanes"@, key) by {
        let prefix = "bus:lanes"@ + seq![':'];
    }
    assert forall|key: Seq<char>| !unrelated(key) implies !key_under("psv:lanes"@, key) by {
        let prefix = "psv:lanes"@ + seq![':'];
    }
}

} // verus!

verus! {

/// What lines a side of a plain road while it is built.
pub open spec fn plain_edge_built(sidewalks: bool, locale: Locale) -> Seq<LaneBuilder> {
    if sidewalks {
        seq![LaneBuilder::sidewalk(HighwayType::Other)]
    } else if locale.inferred_sidewalks {
        seq![LaneBuilder::shoulder()]
    } else {
        Seq::<LaneBuilder>::empty()
    }
}

/// `count` driving lanes of a plain road while it is built.
pub open spec fn plain_lanes_built(direction: Direction, count: nat) -> Seq<LaneBuilder> {
    Seq::new(count, |i: int| LaneBuilder::driving(direction, false, false, HighwayType::Other))
}

/// A plain road while it is built, before anything lines it.
pub open spec fn plain_lanes_road(forward: nat, backward: nat) -> RoadBuilderView {
    RoadBuilderView {
        forward: plain_lanes_built(Direction::Forward, forward),
        backward: plain_lanes_built(Direction::Backward, backward),
        highway: HighwayType::Other,
        oneway: Oneway::of(backward == 0),
    }
}

/// A plain road while it is built.
pub open spec fn plain_road_built(
    forward: nat,
    backward: nat,
    sidewalks: bool,
    locale: Locale,
) -> RoadBuilderView {
    RoadBuilderView {
        forward: plain_lanes_built(Direction::Forward, forward) + plain_edge_built(
            sidewalks,
            locale,
        ),
        backward: if backward == 0 && !sidewalks {
            Seq::<LaneBuilder>::empty()
        } else {
            plain_lanes_built(Direction::Backward, backward) + plain_edge_built(sidewalks, locale)
        },
        highway: HighwayType::Other,
        oneway: Oneway::of(backward == 0),
    }
}

proof fn lemma_plain_tags_counted(forward: nat, backward: nat, sidewalks: bool)
    requires
        evenly_split(forward, backward),
        forward + backward <= usize::MAX,
    ensures
        with_driving_lanes(
            plain_tags(forward + backward, backward == 0, sidewalks),
            empty_road(plain_tags(forward + backward, backward == 0, sidewalks)),
        ) == plain_lanes_road(forward, backward),
        !counts_doubtful(plain_tags(forward + backward, backward == 0, sidewalks), backward == 0),
        !under_construction(plain_tags(forward + backward, backward == 0, sidewalks)),
{
    let oneway = backward == 0;
    let tags = plain_tags(forward + backward, oneway, sidewalks);
    lemma_plain_tags_hold(forward + backward, oneway, sidewalks);
    lemma_unrelated_keys();
    lemma_access_keys_unrelated();
    lemma_unrelated_access_keys_0();
    lemma_unrelated_access_keys_1();
    lemma_unrelated_access_keys_2();
    lemma_yes_names_nothing();
    lemma_decimal_parses(forward + backward);
    assert(is_oneway(tags) == oneway) by {
        let values = seq!["yes"@, "reversible"@];
        assert(values[0] == "yes"@);
        assert(!tags.contains_key("junction"@));
    }
    let road = empty_road(tags);
    assert(road.highway == HighwayType::Other);
    assert(road.oneway == Oneway::of(oneway));
    assert(!tags.contains_key("lanes:both_ways"@));
    assert(!tags.contains_key("lanes:forward"@));
    assert(!tags.contains_key("lanes:backward"@));
    assert(!tags.contains_key("centre_turn_lane"@));
    assert(!tags.contains_key("access"@));
    assert(!tags.contains_key("bus"@));
    assert(!tags.contains_key("psv"@));
    assert(!tags.contains_key("motor_vehicle:conditional"@));
    assert(count_of(tags, "lanes"@) == Some((forward + backward) as usize));
    assert(forward_count(tags, oneway) == forward);
    assert(backward_count(tags, oneway) == backward);
    assert(!bus_only(tags));
    let after = with_driving_lanes(tags, road);
    assert(after.forward =~= plain_lanes_built(Direction::Forward, forward));
    assert(after.backward =~= plain_lanes_built(Direction::Backward, backward));
}

proof fn lemma_plain_tags_driven(
    forward: nat,
    backward: nat,
    sidewalks: bool,
    locale: Locale,
    warnings: Seq<RoadMsgView>,
)
    ensures
        after_mode_passes(
            plain_tags(forward + backward, backward == 0, sidewalks),
            locale,
            plain_lanes_road(forward, backward),
            warnings,
        ) == Outcome::passed(
            with_foot_and_shoulder(
                plain_tags(forward + backward, backward == 0, sidewalks),
                locale,
                plain_lanes_road(forward, backward),
            ),
            warnings,
        ),
{
    let oneway = backward == 0;
    let road = plain_lanes_road(forward, backward);
    let tags = plain_tags(forward + backward, oneway, sidewalks);
    lemma_plain_tags_hold(forward + backward, oneway, sidewalks);
    lemma_plain_tags_without_buses(forward + backward, oneway, sidewalks);
    lemma_unrelated_keys();
    crate::transform::sides::lemma_joined_keys();
    assert(bus_outcome(tags, locale, road, warnings) == Outcome::passed(road, warnings));
    assert(!tags.contains_key("cycleway"@));
    assert(!tags.contains_key("cycleway:both"@));
    assert(!tags.contains_key("cycleway:left"@));
    assert(!tags.contains_key("cycleway:right"@));
    assert(!adds_cycle_lanes(tags));
    assert(cycle_free(road.forward));
    assert(cycle_free(road.backward));
    lemma_bicycle_idle(tags, locale, road, warnings);
    assert(!tags.contains_key("parking:lane:right"@));
    assert(!tags.contains_key("parking:lane:both"@));
    assert(!tags.contains_key("parking:lane:left"@));
    assert(with_parking(tags, road) == road);
}

proof fn lemma_plain_tags_lined(forward: nat, backward: nat, sidewalks: bool, locale: Locale)
    requires
        forward >= 1,
    ensures
        with_foot_and_shoulder(
            plain_tags(forward + backward, backward == 0, sidewalks),
            locale,
            plain_lanes_road(forward, backward),
        ) == plain_road_built(forward, backward, sidewalks, locale),
{
    let oneway = backward == 0;
    let road = plain_lanes_road(forward, backward);
    let tags = plain_tags(forward + backward, oneway, sidewalks);
    lemma_plain_tags_hold(forward + backward, oneway, sidewalks);
    lemma_unrelated_keys();
    lemma_unrelated_access_keys_0();
    lemma_yes_names_nothing();
    assert(!tags.contains_key("foot"@));
    assert(!tags.contains_key("access"@));
    assert(!tags.contains_key("motorroad"@));
    let sidewalk = LaneBuilder::sidewalk(HighwayType::Other);
    let walked = with_sidewalks(tags, locale, road);
    assert(tag_is(tags, "sidewalk"@, "both"@) == sidewalks);
    assert(walked == if sidewalks {
        road.push_forward(sidewalk).push_backward(sidewalk)
    } else {
        road
    });
    assert(!shoulders_ruled_out(tags)) by {
        let classes = seq!["motorway"@, "motorway_link"@, "construction"@];
        if classes.contains("yes"@) {
            let i = choose|i: int| 0 <= i < classes.len() && classes[i] == "yes"@;
            assert(i == 0 || i == 1 || i == 2);
        }
    }
    assert(shoulders_inferred(tags, locale) == locale.inferred_sidewalks);
    assert(tag_is(tags, "oneway"@, "yes"@) == oneway);
    assert(lacks_sidewalk(walked.forward) == !sidewalks) by {
        if sidewalks {
            assert(walked.forward.last() == sidewalk);
        } else {
            assert(!road.forward.last().is_for(Designated::Foot));
        }
    }
    assert(lacks_sidewalk(walked.backward) == !sidewalks) by {
        if sidewalks {
            assert(walked.backward.last() == sidewalk);
        } else if road.backward.len() > 0 {
            assert(!road.backward.last().is_for(Designated::Foot));
        }
    }
    let lined = with_foot_and_shoulder(tags, locale, road);
    let built = plain_road_built(forward, backward, sidewalks, locale);
    assert(lined.forward =~= built.forward);
    assert(lined.backward =~= built.backward);
}

proof fn lemma_plain_tags_checked(lanes: nat, oneway: bool, sidewalks: bool)
    ensures
        unsupported_warnings(plain_tags(lanes, oneway, sidewalks), Seq::<RoadMsgView>::empty())
            == Seq::<RoadMsgView>::empty(),
        unsupported_error(plain_tags(lanes, oneway, sidewalks)) is None,
        !is_non_motorized(plain_tags(lanes, oneway, sidewalks)),
{
    let tags = plain_tags(lanes, oneway, sidewalks);
    lemma_plain_tags_hold(lanes, oneway, sidewalks);
    lemma_access_keys_unrelated();
    lemma_yes_names_nothing();
    assert(!restricts_access(tags)) by {
        if restricts_access(tags) {
            let i = choose|i: int|
                0 <= i < access_keys().len() && tags.contains_key(#[trigger] access_keys()[i]);
            assert(unrelated(access_keys()[i]));
        }
    }
    assert(!is_non_motorized(tags)) by {
        let classes = non_motorized_classes();
        if classes.contains("yes"@) {
            let i = choose|i: int| 0 <= i < classes.len() && classes[i] == "yes"@;
            assert(i == 0 || i == 1 || i == 2 || i == 3 || i == 4 || i == 5);
        }
    }
}

/// What the inference makes of the tags of a plain road: the plain road,
/// without a warning.
pub proof fn lemma_plain_tags_inferred(
    forward: nat,
    backward: nat,
    sidewalks: bool,
    locale: Locale,
)
    requires
        evenly_split(forward, backward),
        forward + backward <= usize::MAX,
    ensures
        inferred_road(
            plain_tags(forward + backward, backward == 0, sidewalks),
            locale,
            Seq::<RoadMsgView>::empty(),
        ) == Outcome::passed(
            plain_road_built(forward, backward, sidewalks, locale),
            Seq::<RoadMsgView>::empty(),
        ),
{
    let oneway = backward == 0;
    let tags = plain_tags(forward + backward, oneway, sidewalks);
    let nothing = Seq::<RoadMsgView>::empty();
    lemma_plain_tags_checked(forward + backward, oneway, sidewalks);
    lemma_plain_tags_counted(forward, backward, sidewalks);
    let road = with_driving_lanes(tags, empty_road(tags));
    assert(road.oneway == Oneway::of(oneway));
    assert(empty_road(tags).oneway == road.oneway);
    lemma_plain_tags_driven(forward, backward, sidewalks, locale, nothing);
    lemma_plain_tags_lined(forward, backward, sidewalks, locale);
}

proof fn lemma_plain_road_in_short(forward: nat, backward: nat, sidewalks: bool, locale: Locale)
    ensures
        left_to_right(
            plain_road_built(forward, backward, sidewalks, locale).forward,
            plain_road_built(forward, backward, sidewalks, locale).backward,
            locale.driving_side,
        ).map_values(|lane: LaneBuilder| LaneSpec::of(lane)) == plain_road(
            forward,
            backward,
            sidewalks,
            locale,
        ),
{
    let built = plain_road_built(forward, backward, sidewalks, locale);
    let short = left_to_right(built.forward, built.backward, locale.driving_side).map_values(
        |lane: LaneBuilder| LaneSpec::of(lane),
    );
    let ahead = plain_side(Direction::Forward, forward, plain_edge(sidewalks, locale));
    let back = plain_backward_side(backward, sidewalks, locale);
    let road = plain_road(forward, backward, sidewalks, locale);
    assert(built.forward.len() == ahead.len());
    assert(built.backward.len() == back.len());
    assert forall|i: int| 0 <= i < ahead.len() implies LaneSpec::of(#[trigger] built.forward[i])
        == ahead[i] by {}
    assert forall|i: int| 0 <= i < back.len() implies LaneSpec::of(#[trigger] built.backward[i])
        == back[i] by {}
    assert(short =~= road) by {
        assert(short.len() == road.len());
        assert forall|i: int| 0 <= i < short.len() implies short[i] == road[i] by {
            match locale.driving_side {
                DrivingSide::Right => {
                    if i < back.len() {
                        assert(LaneSpec::of(built.backward[back.len() - 1 - i]) == back[back.len()
                            - 1 - i]);
                    } else {
                        assert(LaneSpec::of(built.forward[i - back.len()]) == ahead[i
                            - back.len()]);
                    }
                },
                DrivingSide::Left => {
                    if i < ahead.len() {
                        assert(LaneSpec::of(built.forward[ahead.len() - 1 - i]) == ahead[ahead.len()
                            - 1 - i]);
                    } else {
                        assert(LaneSpec::of(built.backward[i - ahead.len()]) == back[i
                            - ahead.len()]);
                    }
                },
            }
        }
    }
}

/// Round trip for plain roads. Take a plain road, with sidewalks or
/// without, whose count of lanes tells how many run each way. The lanes
/// inferred from the tags that describe it are the road itself, without a
/// warning.
pub proof fn lemma_plain_road_round_trip(
    forward: nat,
    backward: nat,
    sidewalks: bool,
    locale: Locale,
)
    requires
        evenly_split(forward, backward),
        forward + backward <= usize::MAX,
    ensures
        lane_specs_without_warnings(
            tags_of_lanes(plain_road(forward, backward, sidewalks, locale)),
            locale,
        ) == Ok::<Seq<LaneSpec>, Seq<char>>(plain_road(forward, backward, sidewalks, locale)),
{
    lemma_tags_of_plain_road(forward, backward, sidewalks, locale);
    lemma_plain_tags_inferred(forward, backward, sidewalks, locale);
    lemma_plain_road_in_short(forward, backward, sidewalks, locale);
    lemma_plain_road(forward, backward, sidewalks, locale);
    let tags = plain_tags(forward + backward, backward == 0, sidewalks);
    let inferred = inferred_road(tags, locale, Seq::<RoadMsgView>::empty());
    let lanes = left_to_right(inferred.road.forward, inferred.road.backward, locale.driving_side);
    assert(lanes.map_values(|lane: LaneBuilder| LaneSpec::of(lane)).len() == lanes.len());
    assert(inferred.warnings.map_values(|msg: RoadMsgView| short_warning(msg)).len() == 0);
}

/// Idempotence on plain roads. Where the lanes inferred from some tags are
/// a plain road, with sidewalks or without, whose count of lanes tells how
/// many run each way, the lanes inferred from the tags that describe that
/// road are the same lanes.
pub proof fn lemma_inference_idempotent(
    tags: Map<Seq<char>, Seq<char>>,
    locale: Locale,
    forward: nat,
    backward: nat,
    sidewalks: bool,
)
    requires
        evenly_split(forward, backward),
        forward + backward <= usize::MAX,
        lane_specs_without_warnings(tags, locale) == Ok::<Seq<LaneSpec>, Seq<char>>(
            plain_road(forward, backward, sidewalks, locale),
        ),
    ensures
        lane_specs_without_warnings(
            tags_of_lanes(plain_road(forward, backward, sidewalks, locale)),
            locale,
        ) == lane_specs_without_warnings(tags, locale),
{
    lemma_plain_road_round_trip(forward, backward, sidewalks, locale);
}

} // verus!

verus! {

/// The finished lanes of a plain road, from left to right.
pub open spec fn plain_road_finished(
    forward: nat,
    backward: nat,
    sidewalks: bool,
    locale: Locale,
    include_separators: bool,
) -> Seq<LaneView> {
    lanes_left_to_right(
        plain_road_built(forward, backward, sidewalks, locale),
        locale,
        include_separators,
    )
}

/// Whether the lane is one of a plain road while it is built.
pub open spec fn is_plain_built(lane: LaneBuilder) -> bool {
    ||| lane == LaneBuilder::driving(Direction::Forward, false, false, HighwayType::Other)
    ||| lane == LaneBuilder::driving(Direction::Backward, false, false, HighwayType::Other)
    ||| lane == LaneBuilder::shoulder()
    ||| lane == LaneBuilder::sidewalk(HighwayType::Other)
}

proof fn lemma_finished_in_short(lanes: Seq<LaneBuilder>)
    requires
        forall|i: int| 0 <= i < lanes.len() ==> is_plain_built(#[trigger] lanes[i]),
    ensures
        short_lanes(finished(lanes)) == lanes.map_values(|lane: LaneBuilder| LaneSpec::of(lane)),
    decreases lanes.len(),
{
    let short = lanes.map_values(|lane: LaneBuilder| LaneSpec::of(lane));
    if lanes.len() == 0 {
        assert(short_lanes(finished(lanes)) =~= short);
    } else {
        let shorter = lanes.drop_last();
        assert forall|i: int| 0 <= i < shorter.len() implies is_plain_built(
            #[trigger] shorter[i],
        ) by {
            assert(shorter[i] == lanes[i]);
        }
        lemma_finished_in_short(shorter);
        assert(is_plain_built(lanes[lanes.len() - 1]));
        assert(finished(lanes).drop_last() =~= finished(shorter));
        assert(finished(lanes).last() == lanes.last().finished());
        assert(short_lane(lanes.last().finished()) == Some(LaneSpec::of(lanes.last())));
        assert(short =~= shorter.map_values(|lane: LaneBuilder| LaneSpec::of(lane)).push(
            LaneSpec::of(lanes.last()),
        ));
    }
}

/// The finished lanes of a plain road are, in short, the plain road.
pub proof fn lemma_plain_road_finished_in_short(
    forward: nat,
    backward: nat,
    sidewalks: bool,
    locale: Locale,
    include_separators: bool,
)
    ensures
        short_lanes(
            plain_road_finished(forward, backward, sidewalks, locale, include_separators),
        ) == plain_road(forward, backward, sidewalks, locale),
{
    let built = plain_road_built(forward, backward, sidewalks, locale);
    let lanes = left_to_right(built.forward, built.backward, locale.driving_side);
    assert forall|i: int| 0 <= i < built.forward.len() implies is_plain_built(
        #[trigger] built.forward[i],
    ) by {}
    assert forall|i: int| 0 <= i < built.backward.len() implies is_plain_built(
        #[trigger] built.backward[i],
    ) by {}
    assert forall|i: int| 0 <= i < lanes.len() implies is_plain_built(#[trigger] lanes[i]) by {
        match locale.driving_side {
            DrivingSide::Right => {
                if i < built.backward.len() {
                    assert(lanes[i] == built.backward[built.backward.len() - 1 - i]);
                } else {
                    assert(lanes[i] == built.forward[i - built.backward.len()]);
                }
            },
            DrivingSide::Left => {
                if i < built.forward.len() {
                    assert(lanes[i] == built.forward[built.forward.len() - 1 - i]);
                } else {
                    assert(lanes[i] == built.backward[i - built.forward.len()]);
                }
            },
        }
    }
    lemma_finished_in_short(lanes);
    lemma_plain_road_in_short(forward, backward, sidewalks, locale);
    if include_separators {
        lemma_short_lanes_separated(finished(lanes));
    } else {
        lemma_short_lanes_without_separators(finished(lanes));
    }
}

/// Round trip for finished plain roads. Take the finished lanes of a plain
/// road, with sidewalks or without, whose count of lanes tells how many run
/// each way. The road inferred from the tags that describe these lanes has
/// the same lanes, and no warning.
pub proof fn lemma_finished_road_round_trip(
    forward: nat,
    backward: nat,
    sidewalks: bool,
    locale: Locale,
    config: Config,
)
    requires
        evenly_split(forward, backward),
        forward + backward <= usize::MAX,
    ensures
        road_from_tags(
            tags_of_lanes(
                short_lanes(
                    plain_road_finished(
                        forward,
                        backward,
                        sidewalks,
                        locale,
                        config.include_separators,
                    ),
                ),
            ),
            locale,
            config,
        ) == Ok::<RoadFromTagsView, RoadErrorView>(
            RoadFromTagsView {
                road: RoadView {
                    lanes: plain_road_finished(
                        forward,
                        backward,
                        sidewalks,
                        locale,
                        config.include_separators,
                    ),
                    highway: HighwayType::Other,
                },
                warnings: Seq::empty(),
            },
        ),
{
    let lanes = plain_road_finished(
        forward,
        backward,
        sidewalks,
        locale,
        config.include_separators,
    );
    lemma_plain_road_finished_in_short(
        forward,
        backward,
        sidewalks,
        locale,
        config.include_separators,
    );
    lemma_plain_road(forward, backward, sidewalks, locale);
    lemma_tags_of_plain_road(forward, backward, sidewalks, locale);
    lemma_plain_tags_inferred(forward, backward, sidewalks, locale);
    assert(lanes.len() > 0) by {
        if lanes.len() == 0 {
            assert(short_lanes(lanes).len() == 0);
        }
    }
}

/// Idempotence on finished plain roads. Where the road inferred from some
/// tags has the finished lanes of a plain road, with sidewalks or without,
/// whose count of lanes tells how many run each way, the road inferred from
/// the tags that describe these lanes has the same lanes.
pub proof fn lemma_road_inference_idempotent(
    tags: Map<Seq<char>, Seq<char>>,
    locale: Locale,
    config: Config,
    forward: nat,
    backward: nat,
    sidewalks: bool,
)
    requires
        evenly_split(forward, backward),
        forward + backward <= usize::MAX,
        road_from_tags(tags, locale, config) is Ok,
        road_from_tags(tags, locale, config)->Ok_0.road.lanes == plain_road_finished(
            forward,
            backward,
            sidewalks,
            locale,
            config.include_separators,
        ),
    ensures
        road_from_tags(
            tags_of_lanes(short_lanes(road_from_tags(tags, locale, config)->Ok_0.road.lanes)),
            locale,
            config,
        ) is Ok,
        road_from_tags(
            tags_of_lanes(short_lanes(road_from_tags(tags, locale, config)->Ok_0.road.lanes)),
            locale,
            config,
        )->Ok_0.road.lanes == road_from_tags(tags, locale, config)->Ok_0.road.lanes,
{
    lemma_finished_road_round_trip(forward, backward, sidewalks, locale, config);
}

} // verus!
