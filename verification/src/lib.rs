//! Infers the lanes of a road from the tags of an OpenStreetMap way.
//!
//! [`tags_to_lanes`] reads a way's [`Tags`] under a [`Locale`] and gives the
//! [`Road`]: its lanes from left to right, with the warnings that arose.
//! [`get_lane_specs_ltr`] gives the same lanes in short,
//! [`lanes_to_tags`] the tags that describe such a list of lanes, and
//! [`road_to_tags`] the tags that describe a finished road.

pub mod highway;
pub mod locale;
pub mod metric;
pub mod road;
pub mod tag;
pub mod text;
pub mod transform;

pub use highway::HighwayType;
pub use locale::{DrivingSide, Locale, WaySide};
pub use metric::{Metre, Speed};
pub use road::{
    Access, AccessValue, Color, Designated, Direction, Lane, Marking, Markings, Printable, Road,
    Style,
};
pub use tag::{Tag, TagKey, Tags};
pub use transform::lane_spec::{
    get_lane_specs_ltr, get_lane_specs_ltr_with_warnings, LaneSpec, LaneSpecError, LaneSpecWarning,
    LaneSpecWarnings, Lanes,
};
pub use transform::lanes_to_tags::lanes_to_tags;
pub use transform::road_to_tags::road_to_tags;
pub use transform::tags_to_lanes::{tags_to_lanes, RoadFromTags};
pub use transform::unsupported::unsupported;
pub use transform::{
    BufferType, Config, Infer, LaneBuilder, LaneType, MsgKind, Oneway, RoadBuilder, RoadError,
    RoadMsg, RoadWarnings,
};
