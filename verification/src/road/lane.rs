use vstd::prelude::*;
use crate::highway::HighwayType;
use crate::locale::{default_travel_width, Locale};
use crate::metric::{Metre, Speed};
use crate::road::marking::{flipped_markings, markings_width, Marking, Markings};

verus! {

/// The way traffic runs on a lane, relative to the way.
#[derive(Clone, Copy, Debug, PartialEq, Eq, Structural)]
pub enum Direction {
    Forward,
    Backward,
    Both,
}

/// The mode of travel that a lane is reserved for.
#[derive(Clone, Copy, Debug, PartialEq, Eq, Structural)]
pub enum Designated {
    Foot,
    Bicycle,
    Motor,
    Bus,
}

/// What an access tag grants.
#[derive(Clone, Copy, Debug, PartialEq, Eq, Structural)]
pub enum AccessValue {
    Yes,
    No,
    Designated,
}

/// Access by mode of travel; a mode without a value is not restricted.
#[derive(Clone, Copy, Debug, PartialEq, Eq, Structural)]
pub struct Access {
    pub foot: Option<AccessValue>,
    pub bicycle: Option<AccessValue>,
    pub taxi: Option<AccessValue>,
    pub bus: Option<AccessValue>,
    pub motor: Option<AccessValue>,
}

/// A single lane.
#[derive(Clone, Debug, PartialEq, Eq)]
pub enum Lane {
    Travel {
        direction: Option<Direction>,
        designated: Designated,
        width: Option<Metre>,
        max_speed: Option<Speed>,
        access: Option<Access>,
    },
    Parking { direction: Direction, designated: Designated, width: Option<Metre> },
    Shoulder { width: Option<Metre> },
    Separator { markings: Markings },
}

/// A lane as a mathematical value.
pub enum LaneView {
    Travel {
        direction: Option<Direction>,
        designated: Designated,
        width: Option<Metre>,
        max_speed: Option<Speed>,
        access: Option<Access>,
    },
    Parking { direction: Direction, designated: Designated, width: Option<Metre> },
    Shoulder { width: Option<Metre> },
    Separator { markings: Seq<Marking> },
}

impl View for Lane {
    type V = LaneView;

    open spec fn view(&self) -> LaneView {
        match *self {
            Lane::Travel { direction, designated, width, max_speed, access } => LaneView::Travel {
                direction,
                designated,
                width,
                max_speed,
                access,
            },
            Lane::Parking { direction, designated, width } => LaneView::Parking {
                direction,
                designated,
                width,
            },
            Lane::Shoulder { width } => LaneView::Shoulder { width },
            Lane::Separator { markings } => LaneView::Separator { markings: markings@ },
        }
    }
}

/// The width of a lane that states none and has no designation to go by, in
/// millimetres.
pub const DEFAULT_LANE_WIDTH: u32 = 3500;

impl LaneView {
    /// Whether the lane is a separator.
    pub open spec fn is_separator(self) -> bool {
        self is Separator
    }

    /// The lane as seen from the other side of the road: a separator has its
    /// markings in reverse order, any other lane is unchanged.
    pub open spec fn mirrored(self) -> LaneView {
        match self {
            LaneView::Separator { markings } => LaneView::Separator {
                markings: flipped_markings(markings),
            },
            other => other,
        }
    }

    /// The width of the lane in millimetres: the one it states, or else the
    /// locale's width for its designation, the default for a shoulder, the
    /// sum of its markings for a separator.
    pub open spec fn millimetres(self, highway: HighwayType) -> nat {
        match self {
            LaneView::Separator { markings } => markings_width(markings),
            LaneView::Travel { width, designated, .. } => match width {
                Some(w) => w.millimetres as nat,
                None => default_travel_width(designated, highway) as nat,
            },
            LaneView::Parking { width, designated, .. } => match width {
                Some(w) => w.millimetres as nat,
                None => default_travel_width(designated, highway) as nat,
            },
            LaneView::Shoulder { width } => match width {
                Some(w) => w.millimetres as nat,
                None => DEFAULT_LANE_WIDTH as nat,
            },
        }
    }

    /// What the data model asks of a lane: a travel lane without direction
    /// is for pedestrians, a parking lane runs one way, a lane that states a
    /// width states a positive one, and a separator has at least one marking
    /// and no marking without width.
    pub open spec fn well_formed(self) -> bool {
        match self {
            LaneView::Travel { direction, designated, width, .. } => {
                &&& direction is None ==> designated == Designated::Foot
                &&& width is Some ==> width->0.millimetres > 0
            },
            LaneView::Parking { direction, width, .. } => {
                &&& direction != Direction::Both
                &&& width is Some ==> width->0.millimetres > 0
            },
            LaneView::Shoulder { width } => width is Some ==> width->0.millimetres > 0,
            LaneView::Separator { markings } => {
                &&& markings.len() > 0
                &&& forall|i: int|
                    0 <= i < markings.len() ==> (#[trigger] markings[i]).millimetres() > 0
            },
        }
    }
}

/// Seen twice from the other side a lane is what it was.
pub proof fn lemma_mirror_twice(lane: LaneView)
    ensures
        lane.mirrored().mirrored() == lane,
{
    match lane {
        LaneView::Separator { markings } => {
            crate::road::marking::lemma_flip_twice(markings);
        },
        _ => {},
    }
}

impl Lane {
    /// Width in metres.
    pub fn width(&self, locale: &Locale, highway: HighwayType) -> (width: Metre)
        requires
            self@.millimetres(highway) <= u32::MAX,
        ensures
            width.millimetres == self@.millimetres(highway),
    {
        match self {
            Lane::Separator { markings } => markings.width(locale),
            Lane::Travel { width, designated, .. } => match width {
                Some(w) => *w,
                None => locale.travel_width(designated, highway),
            },
            Lane::Parking { width, designated, .. } => match width {
                Some(w) => *w,
                None => locale.travel_width(designated, highway),
            },
            Lane::Shoulder { width } => match width {
                Some(w) => *w,
                None => Metre { millimetres: DEFAULT_LANE_WIDTH },
            },
        }
    }

    /// Mirror the lane.
    pub fn mirror(self) -> (mirrored: Lane)
        ensures
            mirrored@ == self@.mirrored(),
    {
        match self {
            Lane::Separator { mut markings } => {
                markings.flip();
                Lane::Separator { markings }
            },
            other => other,
        }
    }

    /// Whether the lane is a sidewalk: a travel lane for pedestrians.
    pub fn is_foot(&self) -> (foot: bool)
        ensures
            foot == (self@ matches LaneView::Travel { designated: Designated::Foot, .. }),
    {
        match self {
            Lane::Travel { designated: Designated::Foot, .. } => true,
            _ => false,
        }
    }
}

/// Display lane detail as printable characters.
pub trait Printable {
    /// The character that shows the value in plain ASCII text.
    spec fn ascii(&self) -> char;

    /// The character that shows the value where any character can be shown.
    spec fn utf8(&self) -> char;

    fn as_ascii(&self) -> (c: char)
        ensures
            c == self.ascii(),
    ;

    fn as_utf8(&self) -> (c: char)
        ensures
            c == self.utf8(),
    ;
}

impl Printable for Lane {
    open spec fn ascii(&self) -> char {
        match self@ {
            LaneView::Travel { designated: Designated::Foot, .. } => 's',
            LaneView::Travel { designated: Designated::Bicycle, .. } => 'b',
            LaneView::Travel { designated: Designated::Motor, .. } => 'd',
            LaneView::Travel { designated: Designated::Bus, .. } => 'B',
            LaneView::Shoulder { .. } => 'S',
            LaneView::Parking { .. } => 'p',
            LaneView::Separator { .. } => '|',
        }
    }

    open spec fn utf8(&self) -> char {
        match self@ {
            LaneView::Travel { designated: Designated::Foot, .. } => '\u{1F6B6}',
            LaneView::Travel { designated: Designated::Bicycle, .. } => '\u{1F6B2}',
            LaneView::Travel { designated: Designated::Motor, .. } => '\u{1F697}',
            LaneView::Travel { designated: Designated::Bus, .. } => '\u{1F68C}',
            LaneView::Shoulder { .. } => '\u{1F6C6}',
            LaneView::Parking { .. } => '\u{1F17F}',
            LaneView::Separator { .. } => '|',
        }
    }

    fn as_ascii(&self) -> (c: char) {
        match self {
            Lane::Travel { designated: Designated::Foot, .. } => 's',
            Lane::Travel { designated: Designated::Bicycle, .. } => 'b',
            Lane::Travel { designated: Designated::Motor, .. } => 'd',
            Lane::Travel { designated: Designated::Bus, .. } => 'B',
            Lane::Shoulder { .. } => 'S',
            Lane::Parking { .. } => 'p',
            Lane::Separator { .. } => '|',
        }
    }

    fn as_utf8(&self) -> (c: char) {
        match self {
            Lane::Travel { designated: Designated::Foot, .. } => '\u{1F6B6}',
            Lane::Travel { designated: Designated::Bicycle, .. } => '\u{1F6B2}',
            Lane::Travel { designated: Designated::Motor, .. } => '\u{1F697}',
            Lane::Travel { designated: Designated::Bus, .. } => '\u{1F68C}',
            Lane::Shoulder { .. } => '\u{1F6C6}',
            Lane::Parking { .. } => '\u{1F17F}',
            Lane::Separator { .. } => '|',
        }
    }
}

impl Printable for Direction {
    open spec fn ascii(&self) -> char {
        match self {
            Direction::Forward => '^',
            Direction::Backward => 'v',
            Direction::Both => '|',
        }
    }

    open spec fn utf8(&self) -> char {
        match self {
            Direction::Forward => '\u{2191}',
            Direction::Backward => '\u{2193}',
            Direction::Both => '\u{2195}',
        }
    }

    fn as_ascii(&self) -> (c: char) {
        match self {
            Direction::Forward => '^',
            Direction::Backward => 'v',
            Direction::Both => '|',
        }
    }

    fn as_utf8(&self) -> (c: char) {
        match self {
            Direction::Forward => '\u{2191}',
            Direction::Backward => '\u{2193}',
            Direction::Both => '\u{2195}',
        }
    }
}

} // verus!
