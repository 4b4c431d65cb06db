//! From tags to lanes and back.
//!
//! The inference builds a road side by side ([`builder`]): the driving
//! lanes from the lane counts ([`driving`]), then what each mode of travel
//! adds ([`modes`]). The sides are put together from left to right
//! ([`assemble`]), separators are put between the lanes ([`separator`]), and
//! [`tags_to_lanes`] hands out the road. [`lane_spec`] gives the lanes in
//! short, [`lanes_to_tags`] the tags of such lanes and [`road_to_tags`]
//! the tags of a finished road.
//!
//! What holds of every inference is proved in [`provenance`] (no pass makes
//! an inferred value less firmly known), [`turn_lane`] (the shared turn lane
//! appears at most once), [`mirror`], [`sides`] and [`symmetry`] (the
//! mirrored tags give the mirrored road) and [`round_trip`] (a plain road is
//! inferred again from its own tags).

pub mod assemble;
pub mod builder;
pub mod config;
pub mod driving;
pub mod error;
pub mod infer;
pub mod lane_spec;
pub mod lanes_to_tags;
pub mod mirror;
pub mod modes;
pub mod oneway;
pub mod provenance;
pub mod road_to_tags;
pub mod round_trip;
pub mod separator;
pub mod sides;
pub mod symmetry;
pub mod tags_to_lanes;
pub mod turn_lane;
pub mod unsupported;

pub use builder::{BufferType, LaneBuilder, LaneType, Outcome, RoadBuilder, RoadBuilderView};
pub use config::Config;
pub use error::{MsgKind, RoadError, RoadErrorView, RoadMsg, RoadMsgView, RoadWarnings};
pub use infer::Infer;
pub use oneway::Oneway;
