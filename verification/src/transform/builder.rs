use vstd::prelude::*;
use crate::highway::HighwayType;
use crate::locale::{default_travel_width, Locale};
use crate::metric::Metre;
use crate::road::lane::DEFAULT_LANE_WIDTH;
use crate::road::{Access, AccessValue, Color, Designated, Direction, Lane, LaneView, Marking, Markings, Style};
use crate::transform::error::{RoadError, RoadErrorView, RoadMsgView};
use crate::transform::infer::Infer;
use crate::transform::oneway::Oneway;

verus! {

/// What keeps a cycle lane apart from the traffic beside it.
#[derive(Clone, Copy, Debug, PartialEq, Eq, Structural)]
pub enum BufferType {
    FlexPosts,
    Curb,
    Planters,
    JerseyBarrier,
    Stripes,
}

/// The kind of a lane while the road is being built.
#[derive(Clone, Copy, Debug, PartialEq, Eq, Structural)]
pub enum LaneType {
    Travel,
    Parking,
    Shoulder,
    Construction,
    SharedLeftTurn,
    Buffer(BufferType),
}

/// A lane while the road is being built: its kind, and what has been
/// inferred of it so far, each with the level of the inference.
#[derive(Clone, Copy, Debug, PartialEq, Eq)]
pub struct LaneBuilder {
    pub lane_type: LaneType,
    pub direction: Infer<Direction>,
    pub designated: Infer<Designated>,
    pub width: Infer<Metre>,
}

/// The width that the locale gives a lane for `designated`.
pub open spec fn locale_width(designated: Designated, highway: HighwayType) -> Infer<Metre> {
    Infer::Default(Metre { millimetres: default_travel_width(designated, highway) })
}

/// Access for nobody.
pub open spec fn closed_access() -> Access {
    Access {
        foot: Some(AccessValue::No),
        bicycle: Some(AccessValue::No),
        taxi: Some(AccessValue::No),
        bus: Some(AccessValue::No),
        motor: Some(AccessValue::No),
    }
}

/// The markings that stand for a buffer of the given kind. Each run reads
/// the same from either side.
pub open spec fn buffer_markings(buffer: BufferType) -> Seq<Marking> {
    match buffer {
        BufferType::FlexPosts => seq![
            Marking { style: Style::DottedLine, color: Some(Color::White), width: None },
        ],
        BufferType::Curb => seq![Marking { style: Style::KerbUp, color: None, width: None }],
        BufferType::Planters => seq![
            Marking { style: Style::SolidLine, color: Some(Color::Green), width: None },
        ],
        BufferType::JerseyBarrier => seq![
            Marking { style: Style::SolidLine, color: Some(Color::Red), width: None },
        ],
        BufferType::Stripes => seq![
            Marking { style: Style::SolidLine, color: Some(Color::White), width: None },
            Marking { style: Style::SolidLine, color: Some(Color::White), width: None },
        ],
    }
}

impl LaneBuilder {
    /// A lane for general traffic, as the lane counts give it: nothing of it
    /// is stated by a tag of its own. `bus_only` reserves it for buses,
    /// `construction` marks it as closed for works.
    pub open spec fn driving(
        direction: Direction,
        bus_only: bool,
        construction: bool,
        highway: HighwayType,
    ) -> LaneBuilder {
        LaneBuilder {
            lane_type: if construction {
                LaneType::Construction
            } else {
                LaneType::Travel
            },
            direction: Infer::Default(direction),
            designated: if bus_only {
                Infer::Direct(Designated::Bus)
            } else {
                Infer::Default(Designated::Motor)
            },
            width: locale_width(
                if bus_only {
                    Designated::Bus
                } else {
                    Designated::Motor
                },
                highway,
            ),
        }
    }

    /// The turn lane in the middle of the road that both directions share.
    pub open spec fn shared_left_turn(highway: HighwayType) -> LaneBuilder {
        LaneBuilder {
            lane_type: LaneType::SharedLeftTurn,
            direction: Infer::Direct(Direction::Both),
            designated: Infer::Default(Designated::Motor),
            width: locale_width(Designated::Motor, highway),
        }
    }

    /// A lane that tags state directly: a travel lane for `designated` in
    /// `direction`.
    pub open spec fn travel(
        direction: Direction,
        designated: Designated,
        highway: HighwayType,
    ) -> LaneBuilder {
        LaneBuilder {
            lane_type: LaneType::Travel,
            direction: Infer::Direct(direction),
            designated: Infer::Direct(designated),
            width: locale_width(designated, highway),
        }
    }

    /// A sidewalk: a travel lane for pedestrians, without direction.
    pub open spec fn sidewalk(highway: HighwayType) -> LaneBuilder {
        LaneBuilder {
            lane_type: LaneType::Travel,
            direction: Infer::Absent,
            designated: Infer::Direct(Designated::Foot),
            width: locale_width(Designated::Foot, highway),
        }
    }

    /// A shoulder, which the engine infers where nothing else lines the road.
    pub open spec fn shoulder() -> LaneBuilder {
        LaneBuilder {
            lane_type: LaneType::Shoulder,
            direction: Infer::Calculated(Direction::Both),
            designated: Infer::Absent,
            width: Infer::Default(Metre { millimetres: DEFAULT_LANE_WIDTH }),
        }
    }

    /// A parking lane for motor vehicles.
    pub open spec fn parking(direction: Direction, highway: HighwayType) -> LaneBuilder {
        LaneBuilder {
            lane_type: LaneType::Parking,
            direction: Infer::Direct(direction),
            designated: Infer::Default(Designated::Motor),
            width: locale_width(Designated::Motor, highway),
        }
    }

    /// A buffer beside a cycle lane.
    pub open spec fn buffer(buffer: BufferType, direction: Direction) -> LaneBuilder {
        LaneBuilder {
            lane_type: LaneType::Buffer(buffer),
            direction: Infer::Direct(direction),
            designated: Infer::Absent,
            width: Infer::Absent,
        }
    }

    /// The lane, reserved for buses by a tag.
    pub open spec fn with_bus(self) -> LaneBuilder {
        LaneBuilder {
            lane_type: self.lane_type,
            direction: self.direction,
            designated: self.designated.overwritten(Infer::Direct(Designated::Bus)),
            width: self.width,
        }
    }

    /// Whether the lane is a travel lane for `designated`.
    pub open spec fn is_for(self, designated: Designated) -> bool {
        self.lane_type == LaneType::Travel && self.designated.value() == Some(designated)
    }

    /// Whether every inferred field of `later` is known at least as firmly
    /// as the same field of `self`.
    pub open spec fn no_firmer_than(self, later: LaneBuilder) -> bool {
        &&& self.direction.rank() <= later.direction.rank()
        &&& self.designated.rank() <= later.designated.rank()
        &&& self.width.rank() <= later.width.rank()
    }

    /// The direction that the finished lane shows: the inferred one; where
    /// none was inferred, none for a lane for pedestrians and forward for
    /// any other.
    pub open spec fn shown_direction(self) -> Option<Direction> {
        match self.direction.value() {
            Some(d) => Some(d),
            None => if self.designated.value() == Some(Designated::Foot) {
                None
            } else {
                Some(Direction::Forward)
            },
        }
    }

    /// The designation that the finished lane shows: the inferred one, and
    /// motor traffic where none was inferred.
    pub open spec fn shown_designated(self) -> Designated {
        match self.designated.value() {
            Some(d) => d,
            None => Designated::Motor,
        }
    }

    /// The width that the finished lane shows: the inferred one if it is
    /// positive.
    pub open spec fn shown_width(self) -> Option<Metre> {
        match self.width.value() {
            Some(w) => if w.millimetres > 0 {
                Some(w)
            } else {
                None
            },
            None => None,
        }
    }

    /// The finished lane. A shared turn lane is a travel lane for motor
    /// traffic in both directions; a lane under construction is a travel
    /// lane closed to everybody; a buffer is a separator with the markings
    /// of its kind.
    pub open spec fn finished(self) -> LaneView {
        match self.lane_type {
            LaneType::Travel => LaneView::Travel {
                direction: self.shown_direction(),
                designated: self.shown_designated(),
                width: self.shown_width(),
                max_speed: None,
                access: None,
            },
            LaneType::SharedLeftTurn => LaneView::Travel {
                direction: Some(Direction::Both),
                designated: Designated::Motor,
                width: self.shown_width(),
                max_speed: None,
                access: None,
            },
            LaneType::Construction => LaneView::Travel {
                direction: self.shown_direction(),
                designated: self.shown_designated(),
                width: self.shown_width(),
                max_speed: None,
                access: Some(closed_access()),
            },
            LaneType::Parking => LaneView::Parking {
                direction: if self.direction.value() == Some(Direction::Backward) {
                    Direction::Backward
                } else {
                    Direction::Forward
                },
                designated: self.shown_designated(),
                width: self.shown_width(),
            },
            LaneType::Shoulder => LaneView::Shoulder { width: self.shown_width() },
            LaneType::Buffer(buffer) => LaneView::Separator { markings: buffer_markings(buffer) },
        }
    }

    /// A driving lane, as the lane counts give it.
    pub fn new_driving(
        direction: Direction,
        bus_only: bool,
        construction: bool,
        locale: &Locale,
        highway: HighwayType,
    ) -> (lane: LaneBuilder)
        ensures
            lane == LaneBuilder::driving(direction, bus_only, construction, highway),
    {
        let designated = if bus_only {
            Designated::Bus
        } else {
            Designated::Motor
        };
        LaneBuilder {
            lane_type: if construction {
                LaneType::Construction
            } else {
                LaneType::Travel
            },
            direction: Infer::Default(direction),
            designated: if bus_only {
                Infer::Direct(Designated::Bus)
            } else {
                Infer::Default(Designated::Motor)
            },
            width: Infer::Default(locale.travel_width(&designated, highway)),
        }
    }

    /// The turn lane in the middle of the road that both directions share.
    pub fn new_shared_left_turn(locale: &Locale, highway: HighwayType) -> (lane: LaneBuilder)
        ensures
            lane == LaneBuilder::shared_left_turn(highway),
    {
        LaneBuilder {
            lane_type: LaneType::SharedLeftTurn,
            direction: Infer::Direct(Direction::Both),
            designated: Infer::Default(Designated::Motor),
            width: Infer::Default(locale.travel_width(&Designated::Motor, highway)),
        }
    }

    /// A travel lane that tags state directly.
    pub fn new_travel(
        direction: Direction,
        designated: Designated,
        locale: &Locale,
        highway: HighwayType,
    ) -> (lane: LaneBuilder)
        ensures
            lane == LaneBuilder::travel(direction, designated, highway),
    {
        LaneBuilder {
            lane_type: LaneType::Travel,
            direction: Infer::Direct(direction),
            designated: Infer::Direct(designated),
            width: Infer::Default(locale.travel_width(&designated, highway)),
        }
    }

    /// A sidewalk.
    pub fn new_sidewalk(locale: &Locale, highway: HighwayType) -> (lane: LaneBuilder)
        ensures
            lane == LaneBuilder::sidewalk(highway),
    {
        LaneBuilder {
            lane_type: LaneType::Travel,
            direction: Infer::Absent,
            designated: Infer::Direct(Designated::Foot),
            width: Infer::Default(locale.travel_width(&Designated::Foot, highway)),
        }
    }

    /// A shoulder.
    pub fn new_shoulder() -> (lane: LaneBuilder)
        ensures
            lane == LaneBuilder::shoulder(),
    {
        LaneBuilder {
            lane_type: LaneType::Shoulder,
            direction: Infer::Calculated(Direction::Both),
            designated: Infer::Absent,
            width: Infer::Default(Metre { millimetres: DEFAULT_LANE_WIDTH }),
        }
    }

    /// A parking lane for motor vehicles.
    pub fn new_parking(direction: Direction, locale: &Locale, highway: HighwayType) -> (lane:
        LaneBuilder)
        ensures
            lane == LaneBuilder::parking(direction, highway),
    {
        LaneBuilder {
            lane_type: LaneType::Parking,
            direction: Infer::Direct(direction),
            designated: Infer::Default(Designated::Motor),
            width: Infer::Default(locale.travel_width(&Designated::Motor, highway)),
        }
    }

    /// A buffer beside a cycle lane.
    pub fn new_buffer(buffer: BufferType, direction: Direction) -> (lane: LaneBuilder)
        ensures
            lane == LaneBuilder::buffer(buffer, direction),
    {
        LaneBuilder {
            lane_type: LaneType::Buffer(buffer),
            direction: Infer::Direct(direction),
            designated: Infer::Absent,
            width: Infer::Absent,
        }
    }

    /// Reserves the lane for buses, as a tag states it.
    pub fn set_bus(&mut self, _locale: &Locale)
        ensures
            *final(self) == old(self).with_bus(),
            old(self).no_firmer_than(*final(self)),
    {
        self.designated.set(Infer::Direct(Designated::Bus));
    }

    /// Whether the lane is a travel lane for `designated`.
    pub fn is_designated(&self, designated: Designated) -> (held: bool)
        ensures
            held == self.is_for(designated),
    {
        match self.lane_type {
            LaneType::Travel => match self.designated {
                Infer::Absent => false,
                Infer::Default(d) | Infer::Calculated(d) | Infer::Direct(d) => match (
                    d,
                    designated,
                ) {
                    (Designated::Foot, Designated::Foot) => true,
                    (Designated::Bicycle, Designated::Bicycle) => true,
                    (Designated::Motor, Designated::Motor) => true,
                    (Designated::Bus, Designated::Bus) => true,
                    _ => false,
                },
            },
            _ => false,
        }
    }

    /// The finished lane.
    pub fn build(&self) -> (lane: Lane)
        ensures
            lane@ == self.finished(),
            lane@.well_formed(),
    {
        let direction = match self.direction.some() {
            Some(d) => Some(d),
            None => if self.is_foot_designated() {
                None
            } else {
                Some(Direction::Forward)
            },
        };
        let designated = match self.designated.some() {
            Some(d) => d,
            None => Designated::Motor,
        };
        let width = match self.width.some() {
            Some(w) => if w.millimetres > 0 {
                Some(w)
            } else {
                None
            },
            None => None,
        };
        match self.lane_type {
            LaneType::Travel => Lane::Travel {
                direction,
                designated,
                width,
                max_speed: None,
                access: None,
            },
            LaneType::SharedLeftTurn => Lane::Travel {
                direction: Some(Direction::Both),
                designated: Designated::Motor,
                width,
                max_speed: None,
                access: None,
            },
            LaneType::Construction => Lane::Travel {
                direction,
                designated,
                width,
                max_speed: None,
                access: Some(
                    Access {
                        foot: Some(AccessValue::No),
                        bicycle: Some(AccessValue::No),
                        taxi: Some(AccessValue::No),
                        bus: Some(AccessValue::No),
                        motor: Some(AccessValue::No),
                    },
                ),
            },
            LaneType::Parking => Lane::Parking {
                direction: match self.direction.some() {
                    Some(Direction::Backward) => Direction::Backward,
                    _ => Direction::Forward,
                },
                designated,
                width,
            },
            LaneType::Shoulder => Lane::Shoulder { width },
            LaneType::Buffer(buffer) => Lane::Separator { markings: buffer_run(buffer) },
        }
    }

    fn is_foot_designated(&self) -> (foot: bool)
        ensures
            foot == (self.designated.value() == Some(Designated::Foot)),
    {
        match self.designated {
            Infer::Default(Designated::Foot)
            | Infer::Calculated(Designated::Foot)
            | Infer::Direct(Designated::Foot) => true,
            _ => false,
        }
    }
}

/// The markings that stand for a buffer of the given kind.
pub fn buffer_run(buffer: BufferType) -> (run: Markings)
    ensures
        run@ == buffer_markings(buffer),
{
    let mut markings: Vec<Marking> = Vec::new();
    match buffer {
        BufferType::FlexPosts => {
            markings.push(Marking::new(Style::DottedLine, Some(Color::White)));
        },
        BufferType::Curb => {
            markings.push(Marking::new(Style::KerbUp, None));
        },
        BufferType::Planters => {
            markings.push(Marking::new(Style::SolidLine, Some(Color::Green)));
        },
        BufferType::JerseyBarrier => {
            markings.push(Marking::new(Style::SolidLine, Some(Color::Red)));
        },
        BufferType::Stripes => {
            markings.push(Marking::new(Style::SolidLine, Some(Color::White)));
            markings.push(Marking::new(Style::SolidLine, Some(Color::White)));
        },
    }
    assert(markings@ =~= buffer_markings(buffer));
    Markings::new(markings)
}

/// A road while it is being built: the lanes of each direction, counted
/// from the middle of the road outwards, the class of the way, and whether
/// it is a oneway.
#[derive(Clone, Debug, PartialEq, Eq)]
pub struct RoadBuilder {
    pub forward_lanes: Vec<LaneBuilder>,
    pub backward_lanes: Vec<LaneBuilder>,
    pub highway: HighwayType,
    pub oneway: Oneway,
}

/// A road under construction as a mathematical value.
pub struct RoadBuilderView {
    pub forward: Seq<LaneBuilder>,
    pub backward: Seq<LaneBuilder>,
    pub highway: HighwayType,
    pub oneway: Oneway,
}

impl View for RoadBuilder {
    type V = RoadBuilderView;

    open spec fn view(&self) -> RoadBuilderView {
        RoadBuilderView {
            forward: self.forward_lanes@,
            backward: self.backward_lanes@,
            highway: self.highway,
            oneway: self.oneway,
        }
    }
}

impl RoadBuilderView {
    /// The road with other lanes forward.
    pub open spec fn with_forward(self, forward: Seq<LaneBuilder>) -> RoadBuilderView {
        RoadBuilderView { forward, ..self }
    }

    /// The road with other lanes backward.
    pub open spec fn with_backward(self, backward: Seq<LaneBuilder>) -> RoadBuilderView {
        RoadBuilderView { backward, ..self }
    }

    /// The road with one more lane at the outer edge of the forward side.
    pub open spec fn push_forward(self, lane: LaneBuilder) -> RoadBuilderView {
        self.with_forward(self.forward.push(lane))
    }

    /// The road with one more lane at the outer edge of the backward side.
    pub open spec fn push_backward(self, lane: LaneBuilder) -> RoadBuilderView {
        self.with_backward(self.backward.push(lane))
    }
}

/// What a pass over the road leaves: the road, the warnings so far, and the
/// error, if the pass stopped the inference.
pub struct Outcome {
    pub road: RoadBuilderView,
    pub warnings: Seq<RoadMsgView>,
    pub error: Option<RoadErrorView>,
}

impl Outcome {
    /// The outcome of a pass that went through.
    pub open spec fn passed(road: RoadBuilderView, warnings: Seq<RoadMsgView>) -> Outcome {
        Outcome { road, warnings, error: None }
    }

    /// The outcome of a pass that stopped with `error`.
    pub open spec fn stopped(
        road: RoadBuilderView,
        warnings: Seq<RoadMsgView>,
        error: RoadMsgView,
    ) -> Outcome {
        Outcome { road, warnings, error: Some(RoadErrorView::Msg(error)) }
    }

    /// Whether a pass that left `road` and `warnings` and returned `result`
    /// did what the outcome says.
    pub open spec fn met_by(
        self,
        road: RoadBuilderView,
        warnings: Seq<RoadMsgView>,
        result: Result<(), RoadError>,
    ) -> bool {
        &&& road == self.road
        &&& warnings == self.warnings
        &&& match result {
            Ok(_) => self.error is None,
            Err(e) => self.error == Some(e@),
        }
    }
}

} // verus!
