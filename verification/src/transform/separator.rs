use vstd::prelude::*;
use crate::road::{lane_views, Color, Designated, Direction, Lane, LaneView, Marking, Markings, Style};

verus! {

/// What a lane is to the separator beside it.
#[derive(Clone, Copy, Debug, PartialEq, Eq, Structural)]
pub enum Edge {
    /// A sidewalk.
    Foot,
    /// A parking lane, a shoulder, or a separator.
    Verge,
    /// A cycle lane.
    Cycle,
    /// The turn lane that both directions share.
    Turn,
    /// A lane for motor traffic or buses, with its direction.
    Drive(Option<Direction>),
}

/// What a lane is to the separator beside it.
pub open spec fn edge_of(lane: LaneView) -> Edge {
    match lane {
        LaneView::Travel { designated: Designated::Foot, .. } => Edge::Foot,
        LaneView::Travel { designated: Designated::Bicycle, .. } => Edge::Cycle,
        LaneView::Travel {
            designated: Designated::Motor,
            direction: Some(Direction::Both),
            ..
        } => Edge::Turn,
        LaneView::Travel { direction, .. } => Edge::Drive(direction),
        _ => Edge::Verge,
    }
}

/// One marking of the default width.
pub open spec fn line(style: Style, color: Option<Color>) -> Marking {
    Marking { style, color, width: None }
}

/// The markings between two neighbours, from left to right. A sidewalk is
/// set off by a raised kerb. A solid white line sets
/// off parking lanes, shoulders and cycle lanes. Between the shared turn
/// lane and a driving lane lie a broken yellow line on the side of the turn
/// lane and a solid yellow line on the side of the driving lane. Driving
/// lanes of one direction are divided by a dashed white line, those of
/// opposite directions by two solid yellow lines.
pub open spec fn edge_markings(left: Edge, right: Edge) -> Seq<Marking> {
    match (left, right) {
        (Edge::Foot, Edge::Foot) => seq![line(Style::SolidLine, Some(Color::White))],
        (_, Edge::Foot) | (Edge::Foot, _) => seq![line(Style::KerbUp, None)],
        (Edge::Verge, _) | (_, Edge::Verge) => seq![line(Style::SolidLine, Some(Color::White))],
        (Edge::Cycle, _) | (_, Edge::Cycle) => seq![line(Style::SolidLine, Some(Color::White))],
        (Edge::Turn, Edge::Turn) => seq![
            line(Style::BrokenLine, Some(Color::Yellow)),
            line(Style::BrokenLine, Some(Color::Yellow)),
        ],
        (Edge::Drive(_), Edge::Turn) => seq![
            line(Style::SolidLine, Some(Color::Yellow)),
            line(Style::BrokenLine, Some(Color::Yellow)),
        ],
        (Edge::Turn, Edge::Drive(_)) => seq![
            line(Style::BrokenLine, Some(Color::Yellow)),
            line(Style::SolidLine, Some(Color::Yellow)),
        ],
        (Edge::Drive(a), Edge::Drive(b)) => if a == b {
            seq![line(Style::DashedLine, Some(Color::White))]
        } else {
            seq![
                line(Style::SolidLine, Some(Color::Yellow)),
                line(Style::SolidLine, Some(Color::Yellow)),
            ]
        },
    }
}

/// The markings between two neighbouring lanes, from left to right.
pub open spec fn pair_markings(left: LaneView, right: LaneView) -> Seq<Marking> {
    edge_markings(edge_of(left), edge_of(right))
}

/// The markings of a lane that is a separator.
pub open spec fn markings_of(lane: LaneView) -> Seq<Marking> {
    match lane {
        LaneView::Separator { markings } => markings,
        _ => Seq::empty(),
    }
}

/// The list with `lane` added on the right, kept so that separators and
/// other lanes take turns: a separator that follows a separator is merged
/// into it, and a lane that follows a lane gets the separator of the pair
/// put before it.
pub open spec fn separated_push(before: Seq<LaneView>, lane: LaneView) -> Seq<LaneView> {
    if before.len() == 0 {
        seq![lane]
    } else if before.last().is_separator() && lane.is_separator() {
        before.drop_last().push(
            LaneView::Separator { markings: markings_of(before.last()) + markings_of(lane) },
        )
    } else if before.last().is_separator() || lane.is_separator() {
        before.push(lane)
    } else {
        before.push(LaneView::Separator { markings: pair_markings(before.last(), lane) }).push(
            lane,
        )
    }
}

/// The lanes with a separator between every two neighbours that are not
/// separators, and with neighbouring separators merged into one.
pub open spec fn separated(lanes: Seq<LaneView>) -> Seq<LaneView>
    decreases lanes.len(),
{
    if lanes.len() == 0 {
        Seq::empty()
    } else {
        separated_push(separated(lanes.drop_last()), lanes.last())
    }
}

/// The lanes that are not separators, in their order.
pub open spec fn without_separators(lanes: Seq<LaneView>) -> Seq<LaneView> {
    lanes.filter(|lane: LaneView| !lane.is_separator())
}

/// Whether separators and other lanes take turns in the list: of any two
/// neighbours exactly one is a separator.
pub open spec fn alternating(lanes: Seq<LaneView>) -> bool {
    forall|i: int|
        0 <= i < lanes.len() - 1 ==> (#[trigger] lanes[i]).is_separator() != lanes[i
            + 1].is_separator()
}

/// In a separated list separators and other lanes take turns, every lane is
/// well formed if those of the list were, and the list is empty only if the
/// given one was.
pub proof fn lemma_separated(lanes: Seq<LaneView>)
    ensures
        alternating(separated(lanes)),
        (forall|i: int| 0 <= i < lanes.len() ==> (#[trigger] lanes[i]).well_formed()) ==> (forall|
            i: int,
        | 0 <= i < separated(lanes).len() ==> (#[trigger] separated(lanes)[i]).well_formed()),
        lanes.len() > 0 ==> separated(lanes).len() > 0,
        lanes.len() > 0 ==> separated(lanes).last().is_separator() == lanes.last().is_separator(),
    decreases lanes.len(),
{
    if lanes.len() > 0 {
        let shorter = lanes.drop_last();
        lemma_separated(shorter);
        let before = separated(shorter);
        let lane = lanes.last();
        let after = separated_push(before, lane);
        assert(after == separated(lanes));
        if forall|i: int| 0 <= i < lanes.len() ==> (#[trigger] lanes[i]).well_formed() {
            assert forall|i: int| 0 <= i < shorter.len() implies (#[trigger] shorter[i]).well_formed() by {
                assert(shorter[i] == lanes[i]);
            }
            assert(lane.well_formed());
            assert forall|i: int| 0 <= i < after.len() implies (#[trigger] after[i]).well_formed() by {
                if i < before.len() - 1 {
                    assert(after[i] == before[i]);
                } else if before.len() > 0 && i == before.len() - 1 {
                    assert(before[i].well_formed());
                }
            }
        }
        assert forall|i: int| 0 <= i < after.len() - 1 implies (#[trigger] after[i]).is_separator()
            != after[i + 1].is_separator() by {
            if i < before.len() - 2 {
                assert(after[i] == before[i]);
                assert(after[i + 1] == before[i + 1]);
            } else if i == before.len() - 2 {
                assert(before[i].is_separator() != before[i + 1].is_separator());
            }
        }
    }
}

/// The markings between two neighbouring lanes, from left to right.
pub fn separator_between(left: &Lane, right: &Lane) -> (run: Markings)
    ensures
        run@ == pair_markings(left@, right@),
{
    let a = edge(left);
    let b = edge(right);
    let white = Some(Color::White);
    let yellow = Some(Color::Yellow);
    let mut markings: Vec<Marking> = Vec::new();
    match (a, b) {
        (Edge::Foot, Edge::Foot) => {
            markings.push(Marking::new(Style::SolidLine, white));
        },
        (_, Edge::Foot) | (Edge::Foot, _) => {
            markings.push(Marking::new(Style::KerbUp, None));
        },
        (Edge::Verge, _) | (_, Edge::Verge) => {
            markings.push(Marking::new(Style::SolidLine, white));
        },
        (Edge::Cycle, _) | (_, Edge::Cycle) => {
            markings.push(Marking::new(Style::SolidLine, white));
        },
        (Edge::Turn, Edge::Turn) => {
            markings.push(Marking::new(Style::BrokenLine, yellow));
            markings.push(Marking::new(Style::BrokenLine, yellow));
        },
        (Edge::Drive(_), Edge::Turn) => {
            markings.push(Marking::new(Style::SolidLine, yellow));
            markings.push(Marking::new(Style::BrokenLine, yellow));
        },
        (Edge::Turn, Edge::Drive(_)) => {
            markings.push(Marking::new(Style::BrokenLine, yellow));
            markings.push(Marking::new(Style::SolidLine, yellow));
        },
        (Edge::Drive(x), Edge::Drive(y)) => {
            if same_direction(x, y) {
                markings.push(Marking::new(Style::DashedLine, white));
            } else {
                markings.push(Marking::new(Style::SolidLine, yellow));
                markings.push(Marking::new(Style::SolidLine, yellow));
            }
        },
    }
    assert(markings@ =~= pair_markings(left@, right@));
    Markings::new(markings)
}

fn same_direction(a: Option<Direction>, b: Option<Direction>) -> (same: bool)
    ensures
        same == (a == b),
{
    match (a, b) {
        (None, None) => true,
        (Some(Direction::Forward), Some(Direction::Forward)) => true,
        (Some(Direction::Backward), Some(Direction::Backward)) => true,
        (Some(Direction::Both), Some(Direction::Both)) => true,
        _ => false,
    }
}

fn edge(lane: &Lane) -> (e: Edge)
    ensures
        e == edge_of(lane@),
{
    match lane {
        Lane::Travel { designated: Designated::Foot, .. } => Edge::Foot,
        Lane::Travel { designated: Designated::Bicycle, .. } => Edge::Cycle,
        Lane::Travel { designated: Designated::Motor, direction: Some(Direction::Both), .. } => {
            Edge::Turn
        },
        Lane::Travel { direction, .. } => Edge::Drive(*direction),
        _ => Edge::Verge,
    }
}

fn copy_markings(markings: &Markings) -> (copy: Vec<Marking>)
    ensures
        copy@ == markings@,
{
    let mut copy: Vec<Marking> = Vec::new();
    let mut i: usize = 0;
    while i < markings.markings.len()
        invariant
            i <= markings.markings.len(),
            copy@ == markings@.take(i as int),
        decreases markings.markings.len() - i,
    {
        copy.push(markings.markings[i]);
        assert(copy@ =~= markings@.take(i as int + 1));
        i += 1;
    }
    assert(markings@.take(i as int) =~= markings@);
    copy
}

/// A lane equal to the given one.
pub fn copy_lane(lane: &Lane) -> (copy: Lane)
    ensures
        copy@ == lane@,
{
    match lane {
        Lane::Travel { direction, designated, width, max_speed, access } => Lane::Travel {
            direction: *direction,
            designated: *designated,
            width: *width,
            max_speed: *max_speed,
            access: *access,
        },
        Lane::Parking { direction, designated, width } => Lane::Parking {
            direction: *direction,
            designated: *designated,
            width: *width,
        },
        Lane::Shoulder { width } => Lane::Shoulder { width: *width },
        Lane::Separator { markings } => Lane::Separator {
            markings: Markings::new(copy_markings(markings)),
        },
    }
}

fn push_separated(out: &mut Vec<Lane>, lane: Lane)
    ensures
        lane_views(final(out)@) == separated_push(lane_views(old(out)@), lane@),
{
    let ghost before = lane_views(out@);
    let n = out.len();
    if n == 0 {
        out.push(lane);
        assert(lane_views(out@) =~= seq![lane@]);
        return ;
    }
    assert(before.last() == out[n - 1]@);
    match lane {
        Lane::Separator { markings } => {
            let merged: Option<Vec<Marking>> = match &out[n - 1] {
                Lane::Separator { markings: last } => {
                    let mut all = copy_markings(last);
                    let mut more = copy_markings(&markings);
                    all.append(&mut more);
                    Some(all)
                },
                _ => None,
            };
            match merged {
                Some(all) => {
                    out.pop();
                    out.push(Lane::Separator { markings: Markings::new(all) });
                    assert(lane_views(out@) =~= separated_push(before, lane@));
                },
                None => {
                    out.push(Lane::Separator { markings });
                    assert(lane_views(out@) =~= separated_push(before, lane@));
                },
            }
        },
        other => {
            let last_is_separator = match &out[n - 1] {
                Lane::Separator { .. } => true,
                _ => false,
            };
            if !last_is_separator {
                let run = separator_between(&out[n - 1], &other);
                out.push(Lane::Separator { markings: run });
            }
            out.push(other);
            assert(lane_views(out@) =~= separated_push(before, lane@));
        },
    }
}

/// Puts a separator between every two neighbouring lanes, and merges
/// separators that are neighbours.
pub fn insert_separators(lanes: &Vec<Lane>) -> (out: Vec<Lane>)
    ensures
        lane_views(out@) == separated(lane_views(lanes@)),
        alternating(lane_views(out@)),
{
    let mut out: Vec<Lane> = Vec::new();
    let mut i: usize = 0;
    assert(lane_views(lanes@).take(0) =~= Seq::empty());
    assert(lane_views(out@) =~= Seq::empty());
    while i < lanes.len()
        invariant
            i <= lanes.len(),
            lane_views(out@) == separated(lane_views(lanes@).take(i as int)),
        decreases lanes.len() - i,
    {
        proof {
            let prefix = lane_views(lanes@).take(i as int + 1);
            assert(prefix.drop_last() =~= lane_views(lanes@).take(i as int));
            assert(prefix.last() == lanes[i as int]@);
        }
        push_separated(&mut out, copy_lane(&lanes[i]));
        i += 1;
    }
    proof {
        assert(lane_views(lanes@).take(i as int) =~= lane_views(lanes@));
        lemma_separated(lane_views(lanes@));
    }
    out
}

/// Takes the separators out of a list of lanes.
pub fn remove_separators(lanes: &Vec<Lane>) -> (out: Vec<Lane>)
    ensures
        lane_views(out@) == without_separators(lane_views(lanes@)),
{
    let mut out: Vec<Lane> = Vec::new();
    let mut i: usize = 0;
    assert(lane_views(lanes@).take(0) =~= Seq::empty());
    assert(lane_views(out@) =~= Seq::empty());
    while i < lanes.len()
        invariant
            i <= lanes.len(),
            lane_views(out@) == without_separators(lane_views(lanes@).take(i as int)),
        decreases lanes.len() - i,
    {
        let ghost prefix = lane_views(lanes@).take(i as int + 1);
        let ghost before = lane_views(out@);
        proof {
            reveal(Seq::filter);
            assert(prefix.drop_last() =~= lane_views(lanes@).take(i as int));
            assert(prefix.last() == lanes[i as int]@);
        }
        match &lanes[i] {
            Lane::Separator { .. } => {},
            other => {
                out.push(copy_lane(other));
                assert(lane_views(out@) =~= before.push(lanes[i as int]@));
            },
        }
        i += 1;
    }
    assert(lane_views(lanes@).take(i as int) =~= lane_views(lanes@));
    out
}

} // verus!
