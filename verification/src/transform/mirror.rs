use vstd::prelude::*;
use crate::locale::Locale;
use crate::road::marking::{flipped_markings, lemma_flip_concat};
use crate::road::LaneView;
use crate::transform::assemble::{left_to_right, lemma_assembly_mirrors};
use crate::transform::builder::{buffer_markings, LaneBuilder, RoadBuilderView};
use crate::transform::separator::{edge_markings, edge_of, markings_of, pair_markings, separated, separated_push, without_separators, Edge};
use crate::transform::tags_to_lanes::{finished, lanes_left_to_right};

verus! {

/// A list of lanes as seen from the other side of the road: in reverse
/// order, each lane mirrored.
pub open spec fn mirrored_lanes(lanes: Seq<LaneView>) -> Seq<LaneView> {
    Seq::new(lanes.len(), |i: int| lanes[lanes.len() - 1 - i].mirrored())
}

/// The markings between two neighbours, read from the other side, are the
/// markings between the two in the other order.
pub proof fn lemma_edge_markings_mirror(left: Edge, right: Edge)
    ensures
        edge_markings(right, left) == flipped_markings(edge_markings(left, right)),
{
    assert(edge_markings(right, left) =~= flipped_markings(edge_markings(left, right)));
}

/// The markings of a buffer read the same from either side.
pub proof fn lemma_buffer_markings_mirror(lane: LaneBuilder)
    ensures
        lane.finished().mirrored() == lane.finished(),
{
    match lane.lane_type {
        crate::transform::builder::LaneType::Buffer(buffer) => {
            assert(flipped_markings(buffer_markings(buffer)) =~= buffer_markings(buffer));
        },
        _ => {},
    }
}

/// The list with `lane` added on the left, kept so that separators and
/// other lanes take turns: what `separated_push` does on the right.
pub open spec fn separated_cons(lane: LaneView, after: Seq<LaneView>) -> Seq<LaneView> {
    if after.len() == 0 {
        seq![lane]
    } else if after.first().is_separator() && lane.is_separator() {
        seq![
            LaneView::Separator { markings: markings_of(lane) + markings_of(after.first()) },
        ] + after.drop_first()
    } else if after.first().is_separator() || lane.is_separator() {
        seq![lane] + after
    } else {
        seq![lane, LaneView::Separator { markings: pair_markings(lane, after.first()) }] + after
    }
}

proof fn lemma_cons_then_push(first: LaneView, middle: Seq<LaneView>, last: LaneView)
    ensures
        separated_push(separated_cons(first, middle), last) == separated_cons(
            first,
            separated_push(middle, last),
        ),
{
    let left = separated_push(separated_cons(first, middle), last);
    let right = separated_cons(first, separated_push(middle, last));
    if middle.len() == 0 {
        assert(left =~= right);
    } else if middle.len() == 1 {
        assert(markings_of(first) + markings_of(middle[0]) + markings_of(last) =~= markings_of(
            first,
        ) + (markings_of(middle[0]) + markings_of(last)));
        assert(left =~= right);
    } else {
        let consed = separated_cons(first, middle);
        let pushed = separated_push(middle, last);
        assert(consed.last() == middle.last());
        assert(pushed.first() == middle.first());
        assert(consed.len() >= 2);
        assert(pushed.len() >= 2);
        assert(left =~= right);
    }
}

proof fn lemma_separated_cons(first: LaneView, rest: Seq<LaneView>)
    ensures
        separated(seq![first] + rest) == separated_cons(first, separated(rest)),
    decreases rest.len(),
{
    let all = seq![first] + rest;
    if rest.len() == 0 {
        assert(all.drop_last() =~= Seq::<LaneView>::empty());
        assert(separated(all.drop_last()) =~= Seq::<LaneView>::empty());
        assert(separated(rest) =~= Seq::<LaneView>::empty());
        assert(separated(all) =~= seq![first]);
    } else {
        let shorter = rest.drop_last();
        lemma_separated_cons(first, shorter);
        assert(all.drop_last() =~= seq![first] + shorter);
        assert(all.last() == rest.last());
        lemma_cons_then_push(first, separated(shorter), rest.last());
    }
}

proof fn lemma_push_mirrors(before: Seq<LaneView>, lane: LaneView)
    ensures
        mirrored_lanes(separated_push(before, lane)) == separated_cons(
            lane.mirrored(),
            mirrored_lanes(before),
        ),
{
    let left = mirrored_lanes(separated_push(before, lane));
    let right = separated_cons(lane.mirrored(), mirrored_lanes(before));
    if before.len() == 0 {
        assert(left =~= right);
    } else {
        let last = before.last();
        assert(mirrored_lanes(before).first() == last.mirrored());
        if last.is_separator() && lane.is_separator() {
            lemma_flip_concat(markings_of(last), markings_of(lane));
            assert(left =~= right);
        } else if last.is_separator() || lane.is_separator() {
            assert(left =~= right);
        } else {
            lemma_edge_markings_mirror(edge_of(last), edge_of(lane));
            assert(left =~= right);
        }
    }
}

/// Separators are put between the same lanes whichever side the road is
/// seen from: separating the mirrored list gives the mirrored separated
/// list.
pub proof fn lemma_separated_mirrors(lanes: Seq<LaneView>)
    ensures
        separated(mirrored_lanes(lanes)) == mirrored_lanes(separated(lanes)),
    decreases lanes.len(),
{
    if lanes.len() == 0 {
        assert(mirrored_lanes(lanes) =~= Seq::<LaneView>::empty());
        assert(mirrored_lanes(separated(lanes)) =~= Seq::<LaneView>::empty());
    } else {
        let shorter = lanes.drop_last();
        let lane = lanes.last();
        lemma_separated_mirrors(shorter);
        assert(mirrored_lanes(lanes) =~= seq![lane.mirrored()] + mirrored_lanes(shorter));
        lemma_separated_cons(lane.mirrored(), mirrored_lanes(shorter));
        lemma_push_mirrors(separated(shorter), lane);
    }
}

/// Taking the separators out of the mirrored list gives the mirrored list
/// without separators.
pub proof fn lemma_without_separators_mirrors(lanes: Seq<LaneView>)
    ensures
        without_separators(mirrored_lanes(lanes)) == mirrored_lanes(without_separators(lanes)),
    decreases lanes.len(),
{
    let keep = |lane: LaneView| !lane.is_separator();
    reveal(Seq::filter);
    if lanes.len() == 0 {
        assert(mirrored_lanes(lanes) =~= Seq::<LaneView>::empty());
        assert(mirrored_lanes(without_separators(lanes)) =~= Seq::<LaneView>::empty());
    } else {
        let shorter = lanes.drop_last();
        let lane = lanes.last();
        lemma_without_separators_mirrors(shorter);
        let head = seq![lane.mirrored()];
        assert(mirrored_lanes(lanes) =~= head + mirrored_lanes(shorter));
        Seq::filter_distributes_over_add(head, mirrored_lanes(shorter), keep);
        assert(head.drop_last() =~= Seq::<LaneView>::empty());
        assert(Seq::<LaneView>::empty().filter(keep) =~= Seq::<LaneView>::empty());
        assert(head.drop_last().filter(keep) =~= Seq::<LaneView>::empty());
        assert(head.last() == lane.mirrored());
        assert(keep(lane.mirrored()) == !lane.is_separator());
        assert(head.filter(keep) =~= if lane.is_separator() {
            Seq::<LaneView>::empty()
        } else {
            head
        });
        if lane.is_separator() {
            assert(without_separators(lanes) == without_separators(shorter));
            assert(without_separators(mirrored_lanes(lanes)) =~= mirrored_lanes(
                without_separators(shorter),
            ));
        } else {
            assert(without_separators(lanes) == without_separators(shorter).push(lane));
            assert(mirrored_lanes(without_separators(shorter).push(lane)) =~= head
                + mirrored_lanes(without_separators(shorter)));
        }
    }
}

/// Mirror symmetry of the assembly: under the other driving side the same
/// two sides of a road give the mirrored list of lanes, in reverse order
/// and with the markings of every separator flipped.
pub proof fn lemma_lanes_mirror(road: RoadBuilderView, locale: Locale, include_separators: bool)
    ensures
        lanes_left_to_right(road, locale.mirrored(), include_separators) == mirrored_lanes(
            lanes_left_to_right(road, locale, include_separators),
        ),
{
    let ltr = left_to_right(road.forward, road.backward, locale.driving_side);
    let other = left_to_right(road.forward, road.backward, locale.mirrored().driving_side);
    lemma_assembly_mirrors(road.forward, road.backward, locale.driving_side);
    assert(other == ltr.reverse());
    assert(finished(other) =~= mirrored_lanes(finished(ltr))) by {
        assert forall|i: int| 0 <= i < ltr.len() implies #[trigger] finished(other)[i]
            == mirrored_lanes(finished(ltr))[i] by {
            lemma_buffer_markings_mirror(ltr[ltr.len() - 1 - i]);
        }
    }
    if include_separators {
        lemma_separated_mirrors(finished(ltr));
    } else {
        lemma_without_separators_mirrors(finished(ltr));
    }
}

} // verus!
