use vstd::prelude::*;
use vstd::string::StringExecFns;
use crate::highway::HighwayType;
use crate::metric::Metre;
use crate::road::Designated;
use crate::tag::TagKey;

verus! {

/// The side of the road on which traffic keeps.
#[derive(Clone, Copy, Debug, PartialEq, Eq, Structural)]
pub enum DrivingSide {
    Right,
    Left,
}

/// The name of a driving side as it stands in tag keys and values.
pub open spec fn side_name(side: DrivingSide) -> Seq<char> {
    match side {
        DrivingSide::Right => "right"@,
        DrivingSide::Left => "left"@,
    }
}

impl DrivingSide {
    /// The other side.
    pub open spec fn flipped(self) -> DrivingSide {
        match self {
            DrivingSide::Right => DrivingSide::Left,
            DrivingSide::Left => DrivingSide::Right,
        }
    }

    /// The other side.
    pub fn opposite(&self) -> (other: DrivingSide)
        ensures
            other == self.flipped(),
    {
        match self {
            DrivingSide::Right => DrivingSide::Left,
            DrivingSide::Left => DrivingSide::Right,
        }
    }

    /// The side's name as text.
    pub fn as_str(&self) -> (name: &'static str)
        ensures
            name@ == side_name(*self),
    {
        match self {
            DrivingSide::Right => "right",
            DrivingSide::Left => "left",
        }
    }

    /// The key segment that names this side.
    pub fn tag(&self) -> (key: TagKey)
        ensures
            key@ == side_name(*self),
    {
        TagKey::from(self.as_str())
    }
}

/// A side of the way, or both, as the suffix of a key names it.
#[derive(Clone, Copy, Debug, PartialEq, Eq, Structural)]
pub enum WaySide {
    Both,
    Right,
    Left,
}

/// The name of a way side as it stands in tag keys.
pub open spec fn way_side_name(side: WaySide) -> Seq<char> {
    match side {
        WaySide::Both => "both"@,
        WaySide::Right => "right"@,
        WaySide::Left => "left"@,
    }
}

impl WaySide {
    /// The side's name as text.
    pub fn as_str(&self) -> (name: &'static str)
        ensures
            name@ == way_side_name(*self),
    {
        match self {
            WaySide::Both => "both",
            WaySide::Right => "right",
            WaySide::Left => "left",
        }
    }

    /// The side's name as an owned text.
    pub fn to_string(&self) -> (name: String)
        ensures
            name@ == way_side_name(*self),
    {
        String::from_str(self.as_str())
    }

    /// The way side on which traffic keeps under `side`.
    pub open spec fn of(side: DrivingSide) -> WaySide {
        match side {
            DrivingSide::Right => WaySide::Right,
            DrivingSide::Left => WaySide::Left,
        }
    }
}

impl From<DrivingSide> for WaySide {
    fn from(side: DrivingSide) -> (way_side: WaySide) {
        match side {
            DrivingSide::Right => WaySide::Right,
            DrivingSide::Left => WaySide::Left,
        }
    }
}

impl vstd::std_specs::convert::FromSpecImpl<DrivingSide> for WaySide {
    open spec fn obeys_from_spec() -> bool {
        true
    }

    open spec fn from_spec(side: DrivingSide) -> WaySide {
        WaySide::of(side)
    }
}

/// Where a way lies: what decides the side of the road, whether ways without
/// sidewalk tags are taken to have a walkable edge, and how wide a lane is
/// when no tag says.
#[derive(Clone, Copy, Debug, PartialEq, Eq, Structural)]
pub struct Locale {
    pub driving_side: DrivingSide,
    pub inferred_sidewalks: bool,
}

/// The width, in millimetres, of a lane for `designated` on a way of class
/// `highway` when no tag gives one.
pub open spec fn default_travel_width(designated: Designated, highway: HighwayType) -> u32 {
    match designated {
        Designated::Motor | Designated::Bus => 3500,
        Designated::Bicycle => match highway {
            HighwayType::Cycleway | HighwayType::Path | HighwayType::Track => 2000,
            _ => 1500,
        },
        Designated::Foot => match highway {
            HighwayType::Footway
            | HighwayType::Pedestrian
            | HighwayType::Path
            | HighwayType::Steps => 2000,
            _ => 1500,
        },
    }
}

impl Locale {
    /// A locale with the given driving side and sidewalk policy.
    pub fn new(driving_side: DrivingSide, inferred_sidewalks: bool) -> (locale: Locale)
        ensures
            locale.driving_side == driving_side,
            locale.inferred_sidewalks == inferred_sidewalks,
    {
        Locale { driving_side, inferred_sidewalks }
    }

    /// The locale that differs from this one in the driving side alone.
    pub open spec fn mirrored(self) -> Locale {
        Locale {
            driving_side: self.driving_side.flipped(),
            inferred_sidewalks: self.inferred_sidewalks,
        }
    }

    /// The width of a lane for `designated` on a way of class `highway` when
    /// no tag gives one. It is never zero.
    pub fn travel_width(&self, designated: &Designated, highway: HighwayType) -> (width: Metre)
        ensures
            width.millimetres == default_travel_width(*designated, highway),
            width.millimetres > 0,
    {
        let millimetres: u32 = match designated {
            Designated::Motor | Designated::Bus => 3500,
            Designated::Bicycle => match highway {
                HighwayType::Cycleway | HighwayType::Path | HighwayType::Track => 2000,
                _ => 1500,
            },
            Designated::Foot => match highway {
                HighwayType::Footway
                | HighwayType::Pedestrian
                | HighwayType::Path
                | HighwayType::Steps => 2000,
                _ => 1500,
            },
        };
        Metre { millimetres }
    }
}

impl Default for Locale {
    fn default() -> (locale: Locale)
        ensures
            locale.driving_side == DrivingSide::Right,
            locale.inferred_sidewalks,
    {
        Locale { driving_side: DrivingSide::Right, inferred_sidewalks: true }
    }
}

} // verus!
