use vstd::prelude::*;
use vstd::string::StringExecFns;
use crate::locale::Locale;
use crate::road::{Designated, Direction};
use crate::tag::Tags;
use crate::text::{count_to_string, decimal};
use crate::transform::assemble::{assemble_ltr, left_to_right};
use crate::transform::builder::{LaneBuilder, LaneType};
use crate::transform::error::{RoadError, RoadErrorView, RoadMsgView, RoadWarnings};
use crate::transform::tags_to_lanes::{infer_road, inferred_road};

verus! {

/// A lane in short: its kind, whom it is for, and its direction.
#[derive(Clone, Copy, Debug, PartialEq, Eq, Structural)]
pub struct LaneSpec {
    pub lane_type: LaneType,
    pub designated: Option<Designated>,
    pub direction: Option<Direction>,
}

impl LaneSpec {
    /// What a lane under construction is in short.
    pub open spec fn of(lane: LaneBuilder) -> LaneSpec {
        LaneSpec {
            lane_type: lane.lane_type,
            designated: lane.designated.value(),
            direction: lane.direction.value(),
        }
    }

    /// Whether the lane is a travel lane for `designated`.
    pub open spec fn is_for(self, designated: Designated) -> bool {
        self.lane_type == LaneType::Travel && self.designated == Some(designated)
    }

    /// A lane of the given kind that runs forward.
    pub fn forward(lane_type: LaneType) -> (lane: LaneSpec)
        ensures
            lane == (LaneSpec { lane_type, designated: None, direction: Some(Direction::Forward) }),
    {
        LaneSpec { lane_type, designated: None, direction: Some(Direction::Forward) }
    }

    /// A lane of the given kind that runs backward.
    pub fn backward(lane_type: LaneType) -> (lane: LaneSpec)
        ensures
            lane == (LaneSpec { lane_type, designated: None, direction: Some(Direction::Backward) }),
    {
        LaneSpec { lane_type, designated: None, direction: Some(Direction::Backward) }
    }

    /// A lane of the given kind for both directions.
    pub fn both(lane_type: LaneType) -> (lane: LaneSpec)
        ensures
            lane == (LaneSpec { lane_type, designated: None, direction: Some(Direction::Both) }),
    {
        LaneSpec { lane_type, designated: None, direction: Some(Direction::Both) }
    }

    /// A lane of the given kind without direction.
    pub fn _none(lane_type: LaneType) -> (lane: LaneSpec)
        ensures
            lane == (LaneSpec { lane_type, designated: None, direction: None }),
    {
        LaneSpec { lane_type, designated: None, direction: None }
    }

    /// The lane, for `designated`.
    pub fn designated(self, designated: Designated) -> (lane: LaneSpec)
        ensures
            lane == (LaneSpec {
                lane_type: self.lane_type,
                designated: Some(designated),
                direction: self.direction,
            }),
    {
        LaneSpec {
            lane_type: self.lane_type,
            designated: Some(designated),
            direction: self.direction,
        }
    }

    /// What a lane under construction is in short.
    pub fn from_builder(lane: &LaneBuilder) -> (spec: LaneSpec)
        ensures
            spec == LaneSpec::of(*lane),
    {
        LaneSpec {
            lane_type: lane.lane_type,
            designated: lane.designated.some(),
            direction: lane.direction.some(),
        }
    }

    /// Whether the lane is a travel lane for `designated`.
    pub fn is_designated(&self, designated: Designated) -> (held: bool)
        ensures
            held == self.is_for(designated),
    {
        match self.lane_type {
            LaneType::Travel => match (self.designated, designated) {
                (Some(Designated::Foot), Designated::Foot) => true,
                (Some(Designated::Bicycle), Designated::Bicycle) => true,
                (Some(Designated::Motor), Designated::Motor) => true,
                (Some(Designated::Bus), Designated::Bus) => true,
                _ => false,
            },
            _ => false,
        }
    }
}

/// Why no lanes could be given, in words.
#[derive(Debug, Clone, PartialEq, Eq)]
pub struct LaneSpecError(pub String);

impl View for LaneSpecError {
    type V = Seq<char>;

    open spec fn view(&self) -> Seq<char> {
        self.0@
    }
}

impl LaneSpecError {
    /// The error as text.
    pub fn to_string(&self) -> (text: String)
        ensures
            text@ == self@,
    {
        self.0.clone()
    }
}

/// A warning: what it says, and the tags that caused it.
#[derive(Debug, PartialEq, Eq)]
pub struct LaneSpecWarning {
    pub description: String,
    // Tags relevant to triggering the warning
    pub tags: Tags,
}

/// A warning as a mathematical value.
pub struct LaneSpecWarningView {
    pub description: Seq<char>,
    pub tags: Map<Seq<char>, Seq<char>>,
}

impl View for LaneSpecWarning {
    type V = LaneSpecWarningView;

    open spec fn view(&self) -> LaneSpecWarningView {
        LaneSpecWarningView { description: self.description@, tags: self.tags@ }
    }
}

/// The warnings of one inference, in the order in which they arose.
#[derive(Debug, PartialEq, Eq)]
pub struct LaneSpecWarnings(pub Vec<LaneSpecWarning>);

impl View for LaneSpecWarnings {
    type V = Seq<LaneSpecWarningView>;

    open spec fn view(&self) -> Seq<LaneSpecWarningView> {
        self.0@.map_values(|w: LaneSpecWarning| w@)
    }
}

/// One line of text for a warning.
pub open spec fn warning_line(warning: LaneSpecWarningView) -> Seq<char> {
    "Warning: "@ + warning.description
}

/// The warnings as text: one line each, with a line break between lines.
pub open spec fn warnings_text(warnings: Seq<LaneSpecWarningView>) -> Seq<char>
    decreases warnings.len(),
{
    if warnings.len() == 0 {
        Seq::empty()
    } else if warnings.len() == 1 {
        warning_line(warnings[0])
    } else {
        warnings_text(warnings.drop_last()) + seq!['\n'] + warning_line(warnings.last())
    }
}

impl LaneSpecWarnings {
    /// Whether there is no warning.
    pub fn is_empty(&self) -> (empty: bool)
        ensures
            empty == (self@.len() == 0),
    {
        self.0.len() == 0
    }

    /// The warnings as text.
    pub fn to_string(&self) -> (text: String)
        ensures
            text@ == warnings_text(self@),
    {
        let mut text = String::new();
        let mut i: usize = 0;
        assert(self@.take(0) =~= Seq::empty());
        while i < self.0.len()
            invariant
                i <= self.0.len(),
                text@ == warnings_text(self@.take(i as int)),
            decreases self.0.len() - i,
        {
            let ghost before = text@;
            proof {
                reveal_strlit("\n");
                let prefix = self@.take(i as int + 1);
                assert(prefix.drop_last() =~= self@.take(i as int));
                assert(prefix.last() == self.0[i as int]@);
                assert(prefix[0] == self@[0]);
            }
            if i > 0 {
                text.append("\n");
            }
            text.append("Warning: ");
            text.append(self.0[i].description.as_str());
            assert(text@ =~= warnings_text(self@.take(i as int + 1))) by {
                if i > 0 {
                    assert(text@ =~= before + seq!['\n'] + warning_line(self.0[i as int]@));
                } else {
                    assert(before =~= Seq::empty());
                    assert(text@ =~= warning_line(self.0[i as int]@));
                }
            }
            i += 1;
        }
        assert(self@.take(i as int) =~= self@);
        text
    }
}

impl Default for LaneSpecWarnings {
    fn default() -> (warnings: LaneSpecWarnings)
        ensures
            warnings@.len() == 0,
    {
        LaneSpecWarnings(Vec::new())
    }
}

/// The lanes of a way in short, from left to right, with the warnings.
#[derive(Debug, PartialEq, Eq)]
pub struct Lanes {
    pub lanes: Vec<LaneSpec>,
    pub warnings: LaneSpecWarnings,
}

/// The result of an inference in short, as a mathematical value.
pub struct LanesView {
    pub lanes: Seq<LaneSpec>,
    pub warnings: Seq<LaneSpecWarningView>,
}

impl View for Lanes {
    type V = LanesView;

    open spec fn view(&self) -> LanesView {
        LanesView { lanes: self.lanes@, warnings: self.warnings@ }
    }
}

/// What an error says, in words: the description of the diagnostic, or how
/// many warnings made the inference fail.
pub open spec fn error_text(error: RoadErrorView) -> Seq<char> {
    match error {
        RoadErrorView::Msg(msg) => msg.description,
        RoadErrorView::Warnings(warnings) => warnings_found(warnings.len()),
    }
}

/// The words that say that `count` warnings were found.
pub open spec fn warnings_found(count: nat) -> Seq<char> {
    decimal(count) + " warnings found"@
}

/// A diagnostic as a warning of the short form.
pub open spec fn short_warning(msg: RoadMsgView) -> LaneSpecWarningView {
    LaneSpecWarningView { description: msg.description, tags: msg.tags }
}

/// The lanes of a way in short, with the warnings: what the inference
/// gives, each lane reduced to its kind, designation and direction, from
/// left to right. A road without lanes is an error.
pub open spec fn lane_specs(tags: Map<Seq<char>, Seq<char>>, locale: Locale) -> Result<
    LanesView,
    Seq<char>,
> {
    let inferred = inferred_road(tags, locale, Seq::empty());
    let lanes = left_to_right(inferred.road.forward, inferred.road.backward, locale.driving_side);
    if inferred.error is Some {
        Err(error_text(inferred.error->0))
    } else if lanes.len() == 0 {
        Err("no lanes"@)
    } else {
        Ok(
            LanesView {
                lanes: lanes.map_values(|lane: LaneBuilder| LaneSpec::of(lane)),
                warnings: inferred.warnings.map_values(|msg: RoadMsgView| short_warning(msg)),
            },
        )
    }
}

/// The lanes of a way in short, where the inference gave no warning.
pub open spec fn lane_specs_without_warnings(
    tags: Map<Seq<char>, Seq<char>>,
    locale: Locale,
) -> Result<Seq<LaneSpec>, Seq<char>> {
    match lane_specs(tags, locale) {
        Ok(lanes) => if lanes.warnings.len() > 0 {
            Err(warnings_found(lanes.warnings.len()))
        } else {
            Ok(lanes.lanes)
        },
        Err(e) => Err(e),
    }
}

fn warnings_found_text(count: usize) -> (text: String)
    ensures
        text@ == warnings_found(count as nat),
{
    count_to_string(count).concat(" warnings found")
}

fn describe(error: RoadError) -> (text: LaneSpecError)
    ensures
        text@ == error_text(error@),
{
    match error {
        RoadError::Msg(msg) => LaneSpecError(msg.description),
        RoadError::Warnings(warnings) => LaneSpecError(warnings_found_text(warnings.len())),
    }
}

fn short_warnings(warnings: RoadWarnings) -> (short: LaneSpecWarnings)
    ensures
        short@ == warnings@.map_values(|msg: RoadMsgView| short_warning(msg)),
{
    let mut short: Vec<LaneSpecWarning> = Vec::new();
    let mut i: usize = 0;
    while i < warnings.warnings.len()
        invariant
            i <= warnings.warnings.len(),
            short.len() == i,
            forall|j: int| 0 <= j < i ==> (#[trigger] short[j])@ == short_warning(warnings@[j]),
        decreases warnings.warnings.len() - i,
    {
        let msg = &warnings.warnings[i];
        short.push(
            LaneSpecWarning { description: msg.description.clone(), tags: msg.tags.clone() },
        );
        i += 1;
    }
    let short = LaneSpecWarnings(short);
    assert(short@ =~= warnings@.map_values(|msg: RoadMsgView| short_warning(msg)));
    short
}

/// From an OpenStreetMap way's tags, determine the lanes along the road from left to right.
pub fn get_lane_specs_ltr_with_warnings(tags: &Tags, locale: &Locale) -> (result: Result<
    Lanes,
    LaneSpecError,
>)
    ensures
        match result {
            Ok(lanes) => lane_specs(tags@, *locale) == Ok::<LanesView, Seq<char>>(lanes@),
            Err(e) => lane_specs(tags@, *locale) == Err::<LanesView, Seq<char>>(e@),
        },
        result matches Ok(lanes) ==> lanes.lanes.len() > 0,
{
    let mut warnings = RoadWarnings::new();
    let road = match infer_road(tags, locale, &mut warnings) {
        Err(e) => {
            return Err(describe(e));
        },
        Ok(road) => road,
    };
    let ltr = assemble_ltr(road.forward_lanes, road.backward_lanes, locale.driving_side);
    if ltr.len() == 0 {
        return Err(LaneSpecError(String::from_str("no lanes")));
    }
    let mut lanes: Vec<LaneSpec> = Vec::new();
    let mut i: usize = 0;
    while i < ltr.len()
        invariant
            i <= ltr.len(),
            lanes.len() == i,
            forall|j: int| 0 <= j < i ==> #[trigger] lanes[j] == LaneSpec::of(ltr[j]),
        decreases ltr.len() - i,
    {
        lanes.push(LaneSpec::from_builder(&ltr[i]));
        i += 1;
    }
    assert(lanes@ =~= ltr@.map_values(|lane: LaneBuilder| LaneSpec::of(lane)));
    Ok(Lanes { lanes, warnings: short_warnings(warnings) })
}

/// The lanes along the road from left to right, in short; warnings are an
/// error.
pub fn get_lane_specs_ltr(tags: &Tags, locale: &Locale) -> (result: Result<
    Vec<LaneSpec>,
    LaneSpecError,
>)
    ensures
        match result {
            Ok(lanes) => lane_specs_without_warnings(tags@, *locale) == Ok::<
                Seq<LaneSpec>,
                Seq<char>,
            >(lanes@),
            Err(e) => lane_specs_without_warnings(tags@, *locale) == Err::<
                Seq<LaneSpec>,
                Seq<char>,
            >(e@),
        },
        result matches Ok(lanes) ==> lanes.len() > 0,
{
    let Lanes { lanes: lane_specs, warnings } = match get_lane_specs_ltr_with_warnings(
        tags,
        locale,
    ) {
        Err(e) => {
            return Err(e);
        },
        Ok(lanes) => lanes,
    };
    if !warnings.is_empty() {
        return Err(LaneSpecError(warnings_found_text(warnings.0.len())));
    }
    Ok(lane_specs)
}

} // verus!
