use vstd::prelude::*;
use vstd::string::StringExecFns;
use crate::tag::Tags;

verus! {

/// What a diagnostic says of the tags it is about.
#[derive(Clone, Copy, Debug, PartialEq, Eq, Structural)]
pub enum MsgKind {
    /// The tags use a form that is no longer recommended.
    Deprecated,
    /// The tags are understood but not handled yet.
    Unimplemented,
    /// The tags, or their combination, are not handled.
    Unsupported,
    /// The tags allow more than one reading.
    Ambiguous,
    /// The engine found itself in a state that it should not reach.
    Internal,
}

/// A diagnostic: its kind, what it says, and the tags that caused it.
#[derive(Debug, PartialEq, Eq)]
pub struct RoadMsg {
    pub kind: MsgKind,
    pub description: String,
    pub tags: Tags,
}

/// A diagnostic as a mathematical value.
pub struct RoadMsgView {
    pub kind: MsgKind,
    pub description: Seq<char>,
    pub tags: Map<Seq<char>, Seq<char>>,
}

impl View for RoadMsg {
    type V = RoadMsgView;

    open spec fn view(&self) -> RoadMsgView {
        RoadMsgView { kind: self.kind, description: self.description@, tags: self.tags@ }
    }
}

/// The diagnostic of `kind` that says `description` of `tags`.
pub open spec fn message(
    kind: MsgKind,
    description: Seq<char>,
    tags: Map<Seq<char>, Seq<char>>,
) -> RoadMsgView {
    RoadMsgView { kind, description, tags }
}

/// The diagnostic of `kind` that says `description` and names no tags.
pub open spec fn plain_message(kind: MsgKind, description: Seq<char>) -> RoadMsgView {
    RoadMsgView { kind, description, tags: Map::empty() }
}

/// The diagnostic that the tag `key=value` is not handled yet.
pub open spec fn unimplemented_tag_message(key: Seq<char>, value: Seq<char>) -> RoadMsgView {
    RoadMsgView {
        kind: MsgKind::Unimplemented,
        description: key + seq!['='] + value,
        tags: Map::empty().insert(key, value),
    }
}

impl Clone for RoadMsg {
    fn clone(&self) -> (copy: RoadMsg)
        ensures
            copy@ == self@,
    {
        RoadMsg {
            kind: self.kind,
            description: self.description.clone(),
            tags: self.tags.clone(),
        }
    }
}

impl RoadMsg {
    /// A diagnostic of `kind` about `tags`.
    pub fn new(kind: MsgKind, description: &str, tags: Tags) -> (msg: RoadMsg)
        ensures
            msg@ == message(kind, description@, tags@),
    {
        RoadMsg { kind, description: String::from_str(description), tags }
    }

    /// A diagnostic of `kind` that names no tags.
    pub fn plain(kind: MsgKind, description: &str) -> (msg: RoadMsg)
        ensures
            msg@ == plain_message(kind, description@),
    {
        RoadMsg { kind, description: String::from_str(description), tags: Tags::new() }
    }

    /// A diagnostic that `tags` are not handled.
    pub fn unsupported(description: &str, tags: Tags) -> (msg: RoadMsg)
        ensures
            msg@ == message(MsgKind::Unsupported, description@, tags@),
    {
        RoadMsg::new(MsgKind::Unsupported, description, tags)
    }

    /// A diagnostic that something is not handled, naming no tags.
    pub fn unsupported_str(description: &str) -> (msg: RoadMsg)
        ensures
            msg@ == plain_message(MsgKind::Unsupported, description@),
    {
        RoadMsg::plain(MsgKind::Unsupported, description)
    }

    /// A diagnostic that `tags` are understood but not handled yet.
    pub fn unimplemented(description: &str, tags: Tags) -> (msg: RoadMsg)
        ensures
            msg@ == message(MsgKind::Unimplemented, description@, tags@),
    {
        RoadMsg::new(MsgKind::Unimplemented, description, tags)
    }

    /// The diagnostic that the tag `key=value` is not handled yet.
    pub fn unimplemented_tag(key: &str, value: &str) -> (msg: RoadMsg)
        ensures
            msg@ == unimplemented_tag_message(key@, value@),
    {
        proof {
            reveal_strlit("=");
        }
        let mut tags = Tags::new();
        tags.insert(key, value);
        let description = String::from_str(key).concat("=").concat(value);
        assert(description@ =~= key@ + seq!['='] + value@);
        RoadMsg { kind: MsgKind::Unimplemented, description, tags }
    }

    /// A diagnostic that `tags` allow more than one reading.
    pub fn ambiguous(description: &str, tags: Tags) -> (msg: RoadMsg)
        ensures
            msg@ == message(MsgKind::Ambiguous, description@, tags@),
    {
        RoadMsg::new(MsgKind::Ambiguous, description, tags)
    }

    /// A diagnostic that the tags allow more than one reading, naming none.
    pub fn ambiguous_str(description: &str) -> (msg: RoadMsg)
        ensures
            msg@ == plain_message(MsgKind::Ambiguous, description@),
    {
        RoadMsg::plain(MsgKind::Ambiguous, description)
    }

    /// A diagnostic that `tags` use a form that is no longer recommended.
    pub fn deprecated(description: &str, tags: Tags) -> (msg: RoadMsg)
        ensures
            msg@ == message(MsgKind::Deprecated, description@, tags@),
    {
        RoadMsg::new(MsgKind::Deprecated, description, tags)
    }
}

/// The diagnostics of a list, each by its view.
pub open spec fn msg_views(msgs: Seq<RoadMsg>) -> Seq<RoadMsgView> {
    msgs.map_values(|m: RoadMsg| m@)
}

/// The warnings gathered while a road is inferred, in the order in which
/// they arose.
#[derive(Debug, PartialEq, Eq)]
pub struct RoadWarnings {
    pub warnings: Vec<RoadMsg>,
}

impl View for RoadWarnings {
    type V = Seq<RoadMsgView>;

    open spec fn view(&self) -> Seq<RoadMsgView> {
        msg_views(self.warnings@)
    }
}

impl RoadWarnings {
    /// No warnings.
    pub fn new() -> (warnings: RoadWarnings)
        ensures
            warnings@ == Seq::<RoadMsgView>::empty(),
    {
        let warnings = RoadWarnings { warnings: Vec::new() };
        assert(warnings@ =~= Seq::<RoadMsgView>::empty());
        warnings
    }

    /// Whether no warning was gathered.
    pub fn is_empty(&self) -> (empty: bool)
        ensures
            empty == (self@.len() == 0),
    {
        self.warnings.len() == 0
    }

    /// The number of warnings.
    pub fn len(&self) -> (n: usize)
        ensures
            n == self@.len(),
    {
        self.warnings.len()
    }

    /// Adds a warning after those already gathered.
    pub fn push(&mut self, msg: RoadMsg)
        ensures
            final(self)@ == old(self)@.push(msg@),
    {
        self.warnings.push(msg);
        assert(self@ =~= old(self)@.push(msg@));
    }

    /// The warning at position `i`, in order of arrival.
    pub fn get(&self, i: usize) -> (msg: Option<&RoadMsg>)
        ensures
            match msg {
                Some(m) => i < self@.len() && m@ == self@[i as int],
                None => i >= self@.len(),
            },
    {
        if i < self.warnings.len() {
            Some(&self.warnings[i])
        } else {
            None
        }
    }
}

impl Default for RoadWarnings {
    fn default() -> (warnings: RoadWarnings)
        ensures
            warnings@ == Seq::<RoadMsgView>::empty(),
    {
        RoadWarnings::new()
    }
}

/// Why no road could be inferred: one diagnostic that stopped the
/// inference, or the warnings of an inference that was told to fail on them.
#[derive(Debug, PartialEq, Eq)]
pub enum RoadError {
    Msg(RoadMsg),
    Warnings(RoadWarnings),
}

/// An error as a mathematical value.
pub enum RoadErrorView {
    Msg(RoadMsgView),
    Warnings(Seq<RoadMsgView>),
}

impl View for RoadError {
    type V = RoadErrorView;

    open spec fn view(&self) -> RoadErrorView {
        match self {
            RoadError::Msg(m) => RoadErrorView::Msg(m@),
            RoadError::Warnings(w) => RoadErrorView::Warnings(w@),
        }
    }
}

impl RoadError {
    /// The error that something is not handled.
    pub fn unsupported_str(description: &str) -> (error: RoadError)
        ensures
            error@ == RoadErrorView::Msg(plain_message(MsgKind::Unsupported, description@)),
    {
        RoadError::Msg(RoadMsg::unsupported_str(description))
    }

    /// The error that the tags allow more than one reading.
    pub fn ambiguous_str(description: &str) -> (error: RoadError)
        ensures
            error@ == RoadErrorView::Msg(plain_message(MsgKind::Ambiguous, description@)),
    {
        RoadError::Msg(RoadMsg::ambiguous_str(description))
    }
}

impl From<RoadMsg> for RoadError {
    fn from(msg: RoadMsg) -> (error: RoadError) {
        RoadError::Msg(msg)
    }
}

impl vstd::std_specs::convert::FromSpecImpl<RoadMsg> for RoadError {
    open spec fn obeys_from_spec() -> bool {
        true
    }

    open spec fn from_spec(msg: RoadMsg) -> RoadError {
        RoadError::Msg(msg)
    }
}

impl From<RoadWarnings> for RoadError {
    fn from(warnings: RoadWarnings) -> (error: RoadError) {
        RoadError::Warnings(warnings)
    }
}

impl vstd::std_specs::convert::FromSpecImpl<RoadWarnings> for RoadError {
    open spec fn obeys_from_spec() -> bool {
        true
    }

    open spec fn from_spec(warnings: RoadWarnings) -> RoadError {
        RoadError::Warnings(warnings)
    }
}

} // verus!
