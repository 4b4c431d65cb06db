use vstd::prelude::*;
use crate::locale::Locale;
use crate::road::{lane_views, AccessValue, Designated, Direction, Lane, LaneView, Road};
use crate::tag::Tags;
use crate::transform::builder::{closed_access, LaneType};
use crate::transform::lane_spec::{LaneSpec, LaneSpecError};
use crate::transform::lanes_to_tags::{lanes_to_tags, tags_of_lanes};
use crate::transform::separator::{separated, without_separators};

verus! {

/// What a finished lane is in short. A travel lane for motor traffic in
/// both directions is the shared turn lane, a travel lane closed to
/// everybody is under construction, and a separator is no lane.
pub open spec fn short_lane(lane: LaneView) -> Option<LaneSpec> {
    match lane {
        LaneView::Travel { direction, designated, access, .. } => Some(
            LaneSpec {
                lane_type: if designated == Designated::Motor && direction == Some(
                    Direction::Both,
                ) {
                    LaneType::SharedLeftTurn
                } else if access == Some(closed_access()) {
                    LaneType::Construction
                } else {
                    LaneType::Travel
                },
                designated: Some(designated),
                direction,
            },
        ),
        LaneView::Parking { direction, designated, .. } => Some(
            LaneSpec {
                lane_type: LaneType::Parking,
                designated: Some(designated),
                direction: Some(direction),
            },
        ),
        LaneView::Shoulder { .. } => Some(
            LaneSpec {
                lane_type: LaneType::Shoulder,
                designated: None,
                direction: Some(Direction::Both),
            },
        ),
        LaneView::Separator { .. } => None,
    }
}

/// The lanes of a finished road in short, from left to right, without its
/// separators.
pub open spec fn short_lanes(lanes: Seq<LaneView>) -> Seq<LaneSpec>
    decreases lanes.len(),
{
    if lanes.len() == 0 {
        Seq::empty()
    } else {
        match short_lane(lanes.last()) {
            Some(lane) => short_lanes(lanes.drop_last()).push(lane),
            None => short_lanes(lanes.drop_last()),
        }
    }
}

proof fn lemma_short_lanes_push(lanes: Seq<LaneView>, lane: LaneView)
    ensures
        short_lanes(lanes.push(lane)) == match short_lane(lane) {
            Some(short) => short_lanes(lanes).push(short),
            None => short_lanes(lanes),
        },
{
    assert(lanes.push(lane).drop_last() =~= lanes);
}

/// Separators between the lanes change nothing of the lanes in short.
pub proof fn lemma_short_lanes_separated(lanes: Seq<LaneView>)
    ensures
        short_lanes(separated(lanes)) == short_lanes(lanes),
    decreases lanes.len(),
{
    if lanes.len() > 0 {
        let before = separated(lanes.drop_last());
        let lane = lanes.last();
        lemma_short_lanes_separated(lanes.drop_last());
        assert(lanes.drop_last().push(lane) =~= lanes);
        lemma_short_lanes_push(lanes.drop_last(), lane);
        if before.len() == 0 {
            assert(seq![lane] =~= before.push(lane));
            lemma_short_lanes_push(before, lane);
        } else if before.last().is_separator() && lane.is_separator() {
            let merged = LaneView::Separator {
                markings: crate::transform::separator::markings_of(before.last())
                    + crate::transform::separator::markings_of(lane),
            };
            lemma_short_lanes_push(before.drop_last(), merged);
            assert(before.drop_last().push(before.last()) =~= before);
            lemma_short_lanes_push(before.drop_last(), before.last());
        } else if before.last().is_separator() || lane.is_separator() {
            lemma_short_lanes_push(before, lane);
        } else {
            let between = LaneView::Separator {
                markings: crate::transform::separator::pair_markings(before.last(), lane),
            };
            lemma_short_lanes_push(before, between);
            lemma_short_lanes_push(before.push(between), lane);
        }
    }
}

/// Taking the separators out changes nothing of the lanes in short.
pub proof fn lemma_short_lanes_without_separators(lanes: Seq<LaneView>)
    ensures
        short_lanes(without_separators(lanes)) == short_lanes(lanes),
    decreases lanes.len(),
{
    reveal(Seq::filter);
    if lanes.len() > 0 {
        lemma_short_lanes_without_separators(lanes.drop_last());
        if !lanes.last().is_separator() {
            assert(without_separators(lanes).drop_last() =~= without_separators(
                lanes.drop_last(),
            ));
        }
    }
}

fn closed_to_all(access: &Option<crate::road::Access>) -> (closed: bool)
    ensures
        closed == (*access == Some(closed_access())),
{
    match access {
        Some(a) => matches!(a.foot, Some(AccessValue::No)) && matches!(
            a.bicycle,
            Some(AccessValue::No)
        ) && matches!(a.taxi, Some(AccessValue::No)) && matches!(a.bus, Some(AccessValue::No))
            && matches!(a.motor, Some(AccessValue::No)),
        None => false,
    }
}

/// What a finished lane is in short; nothing for a separator.
pub fn lane_in_short(lane: &Lane) -> (short: Option<LaneSpec>)
    ensures
        short == short_lane(lane@),
{
    match lane {
        Lane::Travel { direction, designated, access, .. } => {
            let turn = matches!(designated, Designated::Motor) && matches!(
                direction,
                Some(Direction::Both)
            );
            let lane_type = if turn {
                LaneType::SharedLeftTurn
            } else if closed_to_all(access) {
                LaneType::Construction
            } else {
                LaneType::Travel
            };
            Some(LaneSpec { lane_type, designated: Some(*designated), direction: *direction })
        },
        Lane::Parking { direction, designated, .. } => Some(
            LaneSpec {
                lane_type: LaneType::Parking,
                designated: Some(*designated),
                direction: Some(*direction),
            },
        ),
        Lane::Shoulder { .. } => Some(
            LaneSpec {
                lane_type: LaneType::Shoulder,
                designated: None,
                direction: Some(Direction::Both),
            },
        ),
        Lane::Separator { .. } => None,
    }
}

/// The lanes of a finished road in short, without its separators.
pub fn lanes_in_short(lanes: &Vec<Lane>) -> (short: Vec<LaneSpec>)
    ensures
        short@ == short_lanes(lane_views(lanes@)),
{
    let mut short: Vec<LaneSpec> = Vec::new();
    let mut i: usize = 0;
    assert(lane_views(lanes@).take(0) =~= Seq::empty());
    while i < lanes.len()
        invariant
            i <= lanes.len(),
            short@ == short_lanes(lane_views(lanes@).take(i as int)),
        decreases lanes.len() - i,
    {
        proof {
            let prefix = lane_views(lanes@).take(i as int + 1);
            assert(prefix.drop_last() =~= lane_views(lanes@).take(i as int));
            assert(prefix.last() == lanes[i as int]@);
        }
        match lane_in_short(&lanes[i]) {
            Some(lane) => {
                short.push(lane);
            },
            None => {},
        }
        i += 1;
    }
    assert(lane_views(lanes@).take(i as int) =~= lane_views(lanes@));
    short
}

/// The tags that describe a finished road: those of its lanes in short. A
/// road without a lane has no tags and is an error.
pub fn road_to_tags(road: &Road, locale: &Locale) -> (result: Result<Tags, LaneSpecError>)
    ensures
        match result {
            Ok(tags) => short_lanes(road@.lanes).len() > 0 && tags@ == tags_of_lanes(
                short_lanes(road@.lanes),
            ),
            Err(e) => short_lanes(road@.lanes).len() == 0 && e@ == "no lanes"@,
        },
{
    let short = lanes_in_short(&road.lanes);
    lanes_to_tags(short.as_slice(), locale)
}

} // verus!
