use vstd::prelude::*;
use crate::tag::{tag_get, Tags};
use crate::text::str_eq;

verus! {

/// The class of a way, as its `highway` tag names it.
#[derive(Clone, Copy, Debug, PartialEq, Eq, Structural)]
pub enum HighwayType {
    Motorway,
    MotorwayLink,
    Trunk,
    TrunkLink,
    Primary,
    PrimaryLink,
    Secondary,
    SecondaryLink,
    Tertiary,
    TertiaryLink,
    Unclassified,
    Residential,
    LivingStreet,
    Service,
    Construction,
    Cycleway,
    Footway,
    Path,
    Pedestrian,
    Steps,
    Track,
    /// No `highway` tag, or a value that names none of the classes above.
    Other,
}

/// The class that a value of the `highway` tag names.
pub open spec fn highway_named(value: Seq<char>) -> HighwayType {
    if value == "motorway"@ {
        HighwayType::Motorway
    } else if value == "motorway_link"@ {
        HighwayType::MotorwayLink
    } else if value == "trunk"@ {
        HighwayType::Trunk
    } else if value == "trunk_link"@ {
        HighwayType::TrunkLink
    } else if value == "primary"@ {
        HighwayType::Primary
    } else if value == "primary_link"@ {
        HighwayType::PrimaryLink
    } else if value == "secondary"@ {
        HighwayType::Secondary
    } else if value == "secondary_link"@ {
        HighwayType::SecondaryLink
    } else if value == "tertiary"@ {
        HighwayType::Tertiary
    } else if value == "tertiary_link"@ {
        HighwayType::TertiaryLink
    } else if value == "unclassified"@ {
        HighwayType::Unclassified
    } else if value == "residential"@ {
        HighwayType::Residential
    } else if value == "living_street"@ {
        HighwayType::LivingStreet
    } else if value == "service"@ {
        HighwayType::Service
    } else if value == "construction"@ {
        HighwayType::Construction
    } else if value == "cycleway"@ {
        HighwayType::Cycleway
    } else if value == "footway"@ {
        HighwayType::Footway
    } else if value == "path"@ {
        HighwayType::Path
    } else if value == "pedestrian"@ {
        HighwayType::Pedestrian
    } else if value == "steps"@ {
        HighwayType::Steps
    } else if value == "track"@ {
        HighwayType::Track
    } else {
        HighwayType::Other
    }
}

/// The class of the way that carries `tags`.
pub open spec fn highway_of(tags: Map<Seq<char>, Seq<char>>) -> HighwayType {
    match tag_get(tags, "highway"@) {
        Some(value) => highway_named(value),
        None => HighwayType::Other,
    }
}

impl HighwayType {
    /// Reads the class from a value of the `highway` tag.
    pub fn from_value(value: &str) -> (class: HighwayType)
        ensures
            class == highway_named(value@),
    {
        if str_eq(value, "motorway") {
            HighwayType::Motorway
        } else if str_eq(value, "motorway_link") {
            HighwayType::MotorwayLink
        } else if str_eq(value, "trunk") {
            HighwayType::Trunk
        } else if str_eq(value, "trunk_link") {
            HighwayType::TrunkLink
        } else if str_eq(value, "primary") {
            HighwayType::Primary
        } else if str_eq(value, "primary_link") {
            HighwayType::PrimaryLink
        } else if str_eq(value, "secondary") {
            HighwayType::Secondary
        } else if str_eq(value, "secondary_link") {
            HighwayType::SecondaryLink
        } else if str_eq(value, "tertiary") {
            HighwayType::Tertiary
        } else if str_eq(value, "tertiary_link") {
            HighwayType::TertiaryLink
        } else if str_eq(value, "unclassified") {
            HighwayType::Unclassified
        } else if str_eq(value, "residential") {
            HighwayType::Residential
        } else if str_eq(value, "living_street") {
            HighwayType::LivingStreet
        } else if str_eq(value, "service") {
            HighwayType::Service
        } else if str_eq(value, "construction") {
            HighwayType::Construction
        } else if str_eq(value, "cycleway") {
            HighwayType::Cycleway
        } else if str_eq(value, "footway") {
            HighwayType::Footway
        } else if str_eq(value, "path") {
            HighwayType::Path
        } else if str_eq(value, "pedestrian") {
            HighwayType::Pedestrian
        } else if str_eq(value, "steps") {
            HighwayType::Steps
        } else if str_eq(value, "track") {
            HighwayType::Track
        } else {
            HighwayType::Other
        }
    }

    /// Reads the class of a way from its tags.
    pub fn from_tags(tags: &Tags) -> (class: HighwayType)
        ensures
            class == highway_of(tags@),
    {
        match tags.get("highway") {
            Some(value) => HighwayType::from_value(value),
            None => HighwayType::Other,
        }
    }
}

} // verus!
