use vstd::prelude::*;
use crate::highway::HighwayType;
use crate::locale::Locale;
use crate::road::{lane_views, Lane, LaneView, Road, RoadView};
use crate::tag::Tags;
use crate::transform::assemble::{assemble_ltr, left_to_right};
use crate::transform::builder::{LaneBuilder, Outcome, RoadBuilder, RoadBuilderView};
use crate::transform::config::Config;
use crate::transform::driving::{counting_warnings, empty_road, under_construction, with_driving_lanes};
use crate::transform::error::{plain_message, MsgKind, RoadError, RoadErrorView, RoadMsgView, RoadWarnings};
use crate::transform::modes::bicycle::{bicycle, bicycle_outcome};
use crate::transform::modes::bus::{bus, bus_outcome};
use crate::transform::modes::foot_shoulder::{foot_and_shoulder, with_foot_and_shoulder};
use crate::transform::modes::non_motorized::{is_non_motorized, non_motorized, non_motorized_road, non_motorized_warnings};
use crate::transform::modes::parking::{parking, with_parking};
use crate::transform::oneway::Oneway;
use crate::transform::separator::{alternating, insert_separators, lemma_separated, remove_separators, separated, without_separators};
use crate::transform::unsupported::{unsupported, unsupported_error, unsupported_warnings};

verus! {

/// The lanes of a way, with the warnings that arose while they were
/// inferred.
#[derive(Debug, PartialEq, Eq)]
pub struct RoadFromTags {
    pub road: Road,
    pub warnings: RoadWarnings,
}

/// The result of an inference as a mathematical value.
pub struct RoadFromTagsView {
    pub road: RoadView,
    pub warnings: Seq<RoadMsgView>,
}

impl View for RoadFromTags {
    type V = RoadFromTagsView;

    open spec fn view(&self) -> RoadFromTagsView {
        RoadFromTagsView { road: self.road@, warnings: self.warnings@ }
    }
}

/// The passes that read one mode of travel each, in their order: buses,
/// bicycles, parking, then sidewalks and shoulders. A pass that stops ends
/// the row.
pub open spec fn after_mode_passes(
    tags: Map<Seq<char>, Seq<char>>,
    locale: Locale,
    road: RoadBuilderView,
    warnings: Seq<RoadMsgView>,
) -> Outcome {
    let buses = bus_outcome(tags, locale, road, warnings);
    if buses.error is Some {
        buses
    } else {
        let bicycles = bicycle_outcome(tags, locale, buses.road, buses.warnings);
        if bicycles.error is Some {
            bicycles
        } else {
            Outcome::passed(
                with_foot_and_shoulder(tags, locale, with_parking(tags, bicycles.road)),
                bicycles.warnings,
            )
        }
    }
}

/// The road that the tags describe, before its two sides are put together.
/// Tags that are not read give a warning or stop the inference. A way
/// without motor traffic gets its lanes from its class. Any other gets its
/// driving lanes from the lane counts, and then, unless it is closed for
/// works, what the passes for each mode of travel add.
pub open spec fn inferred_road(
    tags: Map<Seq<char>, Seq<char>>,
    locale: Locale,
    warnings: Seq<RoadMsgView>,
) -> Outcome {
    let road = empty_road(tags);
    let warnings = unsupported_warnings(tags, warnings);
    if unsupported_error(tags) is Some {
        Outcome { road, warnings, error: unsupported_error(tags) }
    } else if is_non_motorized(tags) {
        Outcome::passed(non_motorized_road(tags, road), non_motorized_warnings(tags, warnings))
    } else {
        let counted = counting_warnings(tags, road.oneway.holds(), warnings);
        let road = with_driving_lanes(tags, road);
        if under_construction(tags) {
            Outcome::passed(road, counted)
        } else {
            after_mode_passes(tags, locale, road, counted)
        }
    }
}

/// The finished lanes of a list of lanes under construction.
pub open spec fn finished(lanes: Seq<LaneBuilder>) -> Seq<LaneView> {
    lanes.map_values(|lane: LaneBuilder| lane.finished())
}

/// The lanes of a road from left to right, as they are handed out: with
/// separators between all neighbours, or without any separator.
pub open spec fn lanes_left_to_right(
    road: RoadBuilderView,
    locale: Locale,
    include_separators: bool,
) -> Seq<LaneView> {
    let lanes = finished(left_to_right(road.forward, road.backward, locale.driving_side));
    if include_separators {
        separated(lanes)
    } else {
        without_separators(lanes)
    }
}

/// The error for a road that has no lane to show.
pub open spec fn no_lanes() -> RoadErrorView {
    RoadErrorView::Msg(plain_message(MsgKind::Unsupported, "no lanes"@))
}

/// What `tags_to_lanes` returns. The inference may stop with an error. A
/// road without any lane is an error. Warnings are an error where the
/// configuration says so. Otherwise the result is the road from left to
/// right, with the warnings.
pub open spec fn road_from_tags(
    tags: Map<Seq<char>, Seq<char>>,
    locale: Locale,
    config: Config,
) -> Result<RoadFromTagsView, RoadErrorView> {
    let inferred = inferred_road(tags, locale, Seq::empty());
    let lanes = lanes_left_to_right(inferred.road, locale, config.include_separators);
    if inferred.error is Some {
        Err(inferred.error->0)
    } else if lanes.len() == 0 {
        Err(no_lanes())
    } else if config.error_on_warnings && inferred.warnings.len() > 0 {
        Err(RoadErrorView::Warnings(inferred.warnings))
    } else {
        Ok(
            RoadFromTagsView {
                road: RoadView { lanes, highway: inferred.road.highway },
                warnings: inferred.warnings,
            },
        )
    }
}

/// Every finished lane is well formed.
pub proof fn lemma_finished_well_formed(lane: LaneBuilder)
    ensures
        lane.finished().well_formed(),
{
}

/// A well-formed lane has a positive width, stated or not.
pub proof fn lemma_width_positive(lane: LaneView, highway: HighwayType)
    requires
        lane.well_formed(),
    ensures
        lane.millimetres(highway) > 0,
{
    match lane {
        LaneView::Separator { markings } => {
            assert(markings.last().millimetres() > 0);
        },
        _ => {},
    }
}

/// The lanes that are handed out are well formed. With separators,
/// separators and other lanes take turns; without, no lane is a separator.
pub proof fn lemma_lanes_left_to_right(
    road: RoadBuilderView,
    locale: Locale,
    include_separators: bool,
)
    ensures
        forall|i: int|
            0 <= i < lanes_left_to_right(road, locale, include_separators).len() ==> (
            #[trigger] lanes_left_to_right(road, locale, include_separators)[i]).well_formed(),
        include_separators ==> alternating(lanes_left_to_right(road, locale, true)),
        !include_separators ==> forall|i: int|
            0 <= i < lanes_left_to_right(road, locale, false).len() ==> !(
            #[trigger] lanes_left_to_right(road, locale, false)[i]).is_separator(),
{
    let ltr = left_to_right(road.forward, road.backward, locale.driving_side);
    let lanes = finished(ltr);
    assert forall|i: int| 0 <= i < lanes.len() implies (#[trigger] lanes[i]).well_formed() by {
        lemma_finished_well_formed(ltr[i]);
    }
    if include_separators {
        lemma_separated(lanes);
    } else {
        let kept = without_separators(lanes);
        let keep = |lane: LaneView| !lane.is_separator();
        assert forall|i: int| 0 <= i < kept.len() implies (#[trigger] kept[i]).well_formed()
            && !kept[i].is_separator() by {
            lanes.lemma_filter_pred(keep, i);
            assert(kept.contains(kept[i]));
            lanes.lemma_filter_contains_rev(keep, kept[i]);
            let j = choose|j: int| 0 <= j < lanes.len() && lanes[j] == kept[i];
            assert(lanes[j].well_formed());
        }
    }
}

/// Infers the road from the tags: all of `tags_to_lanes` but putting the
/// two sides together.
pub fn infer_road(tags: &Tags, locale: &Locale, warnings: &mut RoadWarnings) -> (result: Result<
    RoadBuilder,
    RoadError,
>)
    ensures
        final(warnings)@ == inferred_road(tags@, *locale, old(warnings)@).warnings,
        match result {
            Ok(road) => inferred_road(tags@, *locale, old(warnings)@).error is None && road@
                == inferred_road(tags@, *locale, old(warnings)@).road,
            Err(e) => inferred_road(tags@, *locale, old(warnings)@).error == Some(e@),
        },
{
    match unsupported(tags, locale, warnings) {
        Err(e) => {
            return Err(e);
        },
        Ok(_) => {},
    }
    let mut road = RoadBuilder::from(tags, locale);
    if non_motorized(tags, locale, &mut road, warnings) {
        return Ok(road);
    }
    let construction = road.add_driving_lanes(tags, locale, warnings);
    if construction {
        return Ok(road);
    }
    match bus(tags, locale, &mut road, warnings) {
        Err(e) => {
            return Err(e);
        },
        Ok(_) => {},
    }
    match bicycle(tags, locale, &mut road, warnings) {
        Err(e) => {
            return Err(e);
        },
        Ok(_) => {},
    }
    parking(tags, locale, &mut road);
    foot_and_shoulder(tags, locale, &mut road);
    Ok(road)
}

fn finish_lanes(lanes: &Vec<LaneBuilder>) -> (out: Vec<Lane>)
    ensures
        lane_views(out@) == finished(lanes@),
{
    let mut out: Vec<Lane> = Vec::new();
    let mut i: usize = 0;
    while i < lanes.len()
        invariant
            i <= lanes.len(),
            lane_views(out@) == finished(lanes@.take(i as int)),
        decreases lanes.len() - i,
    {
        let ghost before = lane_views(out@);
        out.push(lanes[i].build());
        assert(lane_views(out@) =~= before.push(lanes[i as int].finished()));
        assert(finished(lanes@.take(i as int + 1)) =~= finished(lanes@.take(i as int)).push(
            lanes[i as int].finished(),
        ));
        i += 1;
    }
    assert(lanes@.take(i as int) =~= lanes@);
    out
}

impl RoadBuilder {
    /// Puts the two sides together and hands out the finished lanes from
    /// left to right, with the class of the way and whether it is a oneway.
    pub fn into_ltr(
        self,
        _tags: &Tags,
        locale: &Locale,
        include_separators: bool,
        warnings: &mut RoadWarnings,
    ) -> (result: Result<(Vec<Lane>, HighwayType, Oneway), RoadError>)
        ensures
            final(warnings)@ == old(warnings)@,
            match result {
                Ok((lanes, highway, oneway)) => {
                    &&& lane_views(lanes@) == lanes_left_to_right(
                        self@,
                        *locale,
                        include_separators,
                    )
                    &&& lanes.len() > 0
                    &&& highway == self.highway
                    &&& oneway == self.oneway
                },
                Err(e) => e@ == no_lanes() && lanes_left_to_right(
                    self@,
                    *locale,
                    include_separators,
                ).len() == 0,
            },
    {
        let highway = self.highway;
        let oneway = self.oneway;
        let ltr = assemble_ltr(self.forward_lanes, self.backward_lanes, locale.driving_side);
        let all = finish_lanes(&ltr);
        let lanes = if include_separators {
            insert_separators(&all)
        } else {
            remove_separators(&all)
        };
        if lanes.len() == 0 {
            return Err(RoadError::unsupported_str("no lanes"));
        }
        Ok((lanes, highway, oneway))
    }
}

/// From an OpenStreetMap way's tags, determine the lanes along the road
/// from left to right.
///
/// # Errors
///
/// Warnings or errors are produced for situations that may make the lanes
/// inaccurate, such as:
///
/// - Unimplemented or unsupported tags
/// - Ambiguous tags
/// - Unknown internal errors
///
/// If the issue may be recoverable, a warning is preferred.
/// A config option allows all warnings to be treated as errors.
pub fn tags_to_lanes(tags: &Tags, locale: &Locale, config: &Config) -> (result: Result<
    RoadFromTags,
    RoadError,
>)
    ensures
        match result {
            Ok(r) => road_from_tags(tags@, *locale, *config) == Ok::<
                RoadFromTagsView,
                RoadErrorView,
            >(r@),
            Err(e) => road_from_tags(tags@, *locale, *config) == Err::<
                RoadFromTagsView,
                RoadErrorView,
            >(e@),
        },
        result matches Ok(r) ==> {
            &&& r.road.lanes.len() > 0
            &&& forall|i: int|
                0 <= i < r.road.lanes.len() ==> (#[trigger] r@.road.lanes[i]).well_formed()
            &&& forall|i: int|
                0 <= i < r.road.lanes.len() ==> (#[trigger] r@.road.lanes[i]).millimetres(
                    r.road.highway,
                ) > 0
            &&& config.include_separators ==> alternating(r@.road.lanes)
            &&& !config.include_separators ==> forall|i: int|
                0 <= i < r.road.lanes.len() ==> !(#[trigger] r@.road.lanes[i]).is_separator()
            &&& config.error_on_warnings ==> r.warnings@.len() == 0
        },
{
    let mut warnings = RoadWarnings::new();
    let road = match infer_road(tags, locale, &mut warnings) {
        Err(e) => {
            return Err(e);
        },
        Ok(road) => road,
    };
    let ghost built = road@;
    let (lanes, highway, _oneway) = match road.into_ltr(
        tags,
        locale,
        config.include_separators,
        &mut warnings,
    ) {
        Err(e) => {
            return Err(e);
        },
        Ok(parts) => parts,
    };
    let road_from_tags = RoadFromTags { road: Road { lanes, highway }, warnings };
    if config.error_on_warnings && !road_from_tags.warnings.is_empty() {
        return Err(RoadError::Warnings(road_from_tags.warnings));
    }
    proof {
        lemma_lanes_left_to_right(built, *locale, config.include_separators);
        assert forall|i: int| 0 <= i < road_from_tags.road.lanes.len() implies (
        #[trigger] road_from_tags@.road.lanes[i]).millimetres(highway) > 0 by {
            lemma_width_positive(road_from_tags@.road.lanes[i], highway);
        }
    }
    Ok(road_from_tags)
}

} // verus!
