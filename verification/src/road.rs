use vstd::prelude::*;

pub mod lane;
pub mod marking;

pub use lane::{Access, AccessValue, Designated, Direction, Lane, LaneView, Printable};
pub use marking::{Color, Marking, Markings, Style};

use crate::highway::HighwayType;

verus! {

/// A road: its lanes from left to right, and the class of the way.
#[derive(Clone, Debug, PartialEq, Eq)]
pub struct Road {
    pub lanes: Vec<Lane>,
    pub highway: HighwayType,
}

/// The lanes of a list, each by its view.
pub open spec fn lane_views(lanes: Seq<Lane>) -> Seq<LaneView> {
    lanes.map_values(|lane: Lane| lane@)
}

/// A road as a mathematical value.
pub struct RoadView {
    pub lanes: Seq<LaneView>,
    pub highway: HighwayType,
}

impl View for Road {
    type V = RoadView;

    open spec fn view(&self) -> RoadView {
        RoadView { lanes: lane_views(self.lanes@), highway: self.highway }
    }
}

} // verus!
