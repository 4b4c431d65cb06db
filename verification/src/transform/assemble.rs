use vstd::prelude::*;
use crate::locale::DrivingSide;
use crate::transform::builder::LaneBuilder;

verus! {

/// The lanes of a road from left to right. Each side counts its lanes from
/// the middle of the road outwards; where traffic keeps right the backward
/// side lies on the left, so it is walked from its outer edge inwards, and
/// the forward side follows; where traffic keeps left it is the other way
/// round.
pub open spec fn left_to_right(
    forward: Seq<LaneBuilder>,
    backward: Seq<LaneBuilder>,
    driving_side: DrivingSide,
) -> Seq<LaneBuilder> {
    match driving_side {
        DrivingSide::Right => backward.reverse() + forward,
        DrivingSide::Left => forward.reverse() + backward,
    }
}

fn reversed_then(first: &Vec<LaneBuilder>, second: &Vec<LaneBuilder>) -> (lanes: Vec<LaneBuilder>)
    ensures
        lanes@ == first@.reverse() + second@,
{
    let mut lanes: Vec<LaneBuilder> = Vec::new();
    let n = first.len();
    let mut i: usize = 0;
    while i < n
        invariant
            i <= n,
            n == first.len(),
            lanes@ == first@.reverse().take(i as int),
        decreases n - i,
    {
        lanes.push(first[n - 1 - i]);
        assert(lanes@ =~= first@.reverse().take(i as int + 1));
        i += 1;
    }
    assert(lanes@ =~= first@.reverse());
    let mut j: usize = 0;
    while j < second.len()
        invariant
            j <= second.len(),
            lanes@ == first@.reverse() + second@.take(j as int),
        decreases second.len() - j,
    {
        lanes.push(second[j]);
        assert(lanes@ =~= first@.reverse() + second@.take(j as int + 1));
        j += 1;
    }
    assert(second@.take(j as int) =~= second@);
    lanes
}

/// Puts the two sides of a road into one list from left to right.
pub fn assemble_ltr(
    fwd_side: Vec<LaneBuilder>,
    back_side: Vec<LaneBuilder>,
    driving_side: DrivingSide,
) -> (lanes: Vec<LaneBuilder>)
    ensures
        lanes@ == left_to_right(fwd_side@, back_side@, driving_side),
{
    match driving_side {
        DrivingSide::Right => reversed_then(&back_side, &fwd_side),
        DrivingSide::Left => reversed_then(&fwd_side, &back_side),
    }
}

/// Seen from the other side of the road, the lanes come in reverse order:
/// swapping the driving side reverses the assembled list.
pub proof fn lemma_assembly_mirrors(
    forward: Seq<LaneBuilder>,
    backward: Seq<LaneBuilder>,
    driving_side: DrivingSide,
)
    ensures
        left_to_right(forward, backward, driving_side.flipped()) == left_to_right(
            forward,
            backward,
            driving_side,
        ).reverse(),
{
    assert(left_to_right(forward, backward, driving_side.flipped()) =~= left_to_right(
        forward,
        backward,
        driving_side,
    ).reverse());
}

} // verus!
