use vstd::prelude::*;
use crate::locale::Locale;
use crate::metric::Metre;

verus! {

/// How a marking is drawn on the ground.
#[derive(Clone, Copy, Debug, PartialEq, Eq, Structural)]
pub enum Style {
    SolidLine,
    DottedLine,
    DashedLine,
    BrokenLine,
    KerbUp,
    KerbDown,
}

/// The paint of a marking.
#[derive(Clone, Copy, Debug, PartialEq, Eq, Structural)]
pub enum Color {
    White,
    Yellow,
    Red,
    Green,
}

/// One marking of a separator.
#[derive(Clone, Copy, Debug, PartialEq, Eq, Structural)]
pub struct Marking {
    pub style: Style,
    pub color: Option<Color>,
    pub width: Option<Metre>,
}

/// The width of a marking that states none, in millimetres.
pub const DEFAULT_MARKING_WIDTH: u32 = 200;

impl Marking {
    /// The width of the marking in millimetres: its own, or the default.
    pub open spec fn millimetres(self) -> nat {
        match self.width {
            Some(w) => w.millimetres as nat,
            None => DEFAULT_MARKING_WIDTH as nat,
        }
    }

    /// A marking of the default width.
    pub fn new(style: Style, color: Option<Color>) -> (marking: Marking)
        ensures
            marking == (Marking { style, color, width: None }),
    {
        Marking { style, color, width: None }
    }
}

/// The width of a run of markings, in millimetres.
pub open spec fn markings_width(markings: Seq<Marking>) -> nat
    decreases markings.len(),
{
    if markings.len() == 0 {
        0
    } else {
        markings_width(markings.drop_last()) + markings.last().millimetres()
    }
}

/// A run of markings as seen from the other side: the same markings in
/// reverse order.
pub open spec fn flipped_markings(markings: Seq<Marking>) -> Seq<Marking> {
    Seq::new(markings.len(), |i: int| markings[markings.len() - 1 - i])
}

/// Flipping a run of markings twice gives the run back.
pub proof fn lemma_flip_twice(markings: Seq<Marking>)
    ensures
        flipped_markings(flipped_markings(markings)) == markings,
{
    assert(flipped_markings(flipped_markings(markings)) =~= markings);
}

/// Flipping a run made of two runs flips each and swaps them.
pub proof fn lemma_flip_concat(a: Seq<Marking>, b: Seq<Marking>)
    ensures
        flipped_markings(a + b) == flipped_markings(b) + flipped_markings(a),
{
    assert(flipped_markings(a + b) =~= flipped_markings(b) + flipped_markings(a));
}

/// The markings of one separator, from left to right.
#[derive(Clone, Debug, PartialEq, Eq)]
pub struct Markings {
    pub markings: Vec<Marking>,
}

impl View for Markings {
    type V = Seq<Marking>;

    open spec fn view(&self) -> Seq<Marking> {
        self.markings@
    }
}

impl Markings {
    /// The run that holds `markings` in the given order.
    pub fn new(markings: Vec<Marking>) -> (run: Markings)
        ensures
            run@ == markings@,
    {
        Markings { markings }
    }

    /// The number of markings.
    pub fn len(&self) -> (n: usize)
        ensures
            n == self@.len(),
    {
        self.markings.len()
    }

    /// The marking at position `i`, counted from the left.
    pub fn get(&self, i: usize) -> (marking: Option<Marking>)
        ensures
            marking == (if i < self@.len() {
                Some(self@[i as int])
            } else {
                None
            }),
    {
        if i < self.markings.len() {
            Some(self.markings[i])
        } else {
            None
        }
    }

    /// Turns the run into what is seen from the other side.
    pub fn flip(&mut self)
        ensures
            final(self)@ == flipped_markings(old(self)@),
    {
        let mut flipped: Vec<Marking> = Vec::new();
        let n = self.markings.len();
        let mut i: usize = 0;
        while i < n
            invariant
                i <= n,
                n == self.markings.len(),
                self.markings == old(self).markings,
                flipped.len() == i,
                forall|j: int| 0 <= j < i ==> #[trigger] flipped[j] == self.markings[n - 1 - j],
            decreases n - i,
        {
            flipped.push(self.markings[n - 1 - i]);
            i += 1;
        }
        assert(flipped@ =~= flipped_markings(old(self)@));
        self.markings = flipped;
    }

    /// The width of the whole run.
    pub fn width(&self, locale: &Locale) -> (width: Metre)
        requires
            markings_width(self@) <= u32::MAX,
        ensures
            width.millimetres == markings_width(self@),
    {
        let mut total: u32 = 0;
        let mut i: usize = 0;
        while i < self.markings.len()
            invariant
                i <= self.markings.len(),
                total == markings_width(self@.take(i as int)),
                markings_width(self@) <= u32::MAX,
            decreases self.markings.len() - i,
        {
            let millimetres: u32 = match self.markings[i].width {
                Some(w) => w.millimetres,
                None => DEFAULT_MARKING_WIDTH,
            };
            proof {
                assert(self@.take(i as int + 1).drop_last() =~= self@.take(i as int));
                lemma_markings_width_grows(self@, i as int + 1);
            }
            total = total + millimetres;
            i += 1;
        }
        assert(self@.take(i as int) =~= self@);
        Metre { millimetres: total }
    }
}

/// No prefix of a run of markings is wider than the run.
pub proof fn lemma_markings_width_grows(markings: Seq<Marking>, n: int)
    requires
        0 <= n <= markings.len(),
    ensures
        markings_width(markings.take(n)) <= markings_width(markings),
    decreases markings.len() - n,
{
    if n < markings.len() {
        lemma_markings_width_grows(markings, n + 1);
        assert(markings.take(n + 1).drop_last() =~= markings.take(n));
    } else {
        assert(markings.take(n) =~= markings);
    }
}

} // verus!
