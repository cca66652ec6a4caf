use vstd::prelude::*;
use crate::ParseError;
use crate::text_range::TextRange;

verus! {

/// Where a diagnostic points: a single offset or a whole range, in
/// characters from the start of the text the diagnostic was recorded
/// against.
#[derive(Debug, Clone, Copy, PartialEq, Eq, Hash, Structural)]
pub enum Location {
    Offset(u32),
    Range(TextRange),
}

impl Location {
    /// The offset a location sorts by: the offset itself, or the start of
    /// the range.
    pub open spec fn offset_spec(self) -> u32 {
        match self {
            Location::Offset(offset) => offset,
            Location::Range(range) => range.start,
        }
    }

    pub fn offset(&self) -> (r: u32)
        ensures
            r == self.offset_spec(),
    {
        match self {
            Location::Offset(offset) => *offset,
            Location::Range(range) => range.start,
        }
    }

    /// Whether shifting by `plus_offset` and back by `minus_offset` neither
    /// overflows nor runs past zero.
    pub open spec fn can_add_offset(self, plus_offset: u32, minus_offset: u32) -> bool {
        match self {
            Location::Offset(offset) => offset + plus_offset <= u32::MAX && offset + plus_offset
                >= minus_offset,
            Location::Range(range) => range.end + plus_offset <= u32::MAX && range.start
                + plus_offset >= minus_offset,
        }
    }

    /// Re-base the location after an edit: a location at offset `n` moves
    /// to `n + plus_offset - minus_offset`, by pure arithmetic; a range
    /// moves both of its endpoints by the same amount.
    pub fn add_offset(&self, plus_offset: u32, minus_offset: u32) -> (r: Location)
        requires
            self.can_add_offset(plus_offset, minus_offset),
            self is Range ==> self->Range_0.wf(),
        ensures
            (match *self {
                Location::Offset(offset) => r == Location::Offset(
                    (offset + plus_offset - minus_offset) as u32,
                ),
                Location::Range(range) => r == Location::Range(
                    TextRange {
                        start: (range.start + plus_offset - minus_offset) as u32,
                        end: (range.end + plus_offset - minus_offset) as u32,
                    },
                ),
            }),
    {
        match self {
            Location::Range(range) => Location::Range(
                TextRange::from_to(
                    range.start + plus_offset - minus_offset,
                    range.end + plus_offset - minus_offset,
                ),
            ),
            Location::Offset(offset) => Location::Offset(offset + plus_offset - minus_offset),
        }
    }
}

/// What kind of diagnostic was recorded.
#[derive(Debug, PartialEq, Eq, Hash)]
pub enum SyntaxErrorKind {
    ParseError(ParseError),
}

impl View for SyntaxErrorKind {
    type V = Seq<char>;

    /// A diagnostic kind is characterized by its message text.
    open spec fn view(&self) -> Seq<char> {
        match self {
            SyntaxErrorKind::ParseError(e) => e.0@,
        }
    }
}

impl Clone for SyntaxErrorKind {
    fn clone(&self) -> (r: Self)
        ensures
            r@ == self@,
    {
        match self {
            SyntaxErrorKind::ParseError(e) => SyntaxErrorKind::ParseError(ParseError(e.0.clone())),
        }
    }
}

/// A diagnostic: its kind and where in the text it points, stored
/// out-of-band on a tree root rather than on any node.
#[derive(Debug, PartialEq, Eq, Hash)]
pub struct SyntaxError {
    kind: SyntaxErrorKind,
    location: Location,
}

impl View for SyntaxError {
    type V = (Seq<char>, Location);

    /// A diagnostic is characterized by its message text and location.
    closed spec fn view(&self) -> (Seq<char>, Location) {
        (self.kind@, self.location)
    }
}

impl Clone for SyntaxError {
    fn clone(&self) -> (r: Self)
        ensures
            r@ == self@,
    {
        SyntaxError { kind: self.kind.clone(), location: self.location }
    }
}

impl SyntaxError {
    pub fn new(kind: SyntaxErrorKind, loc: Location) -> (r: SyntaxError)
        ensures
            r@ == (kind@, loc),
    {
        SyntaxError { kind, location: loc }
    }

    pub fn kind(&self) -> (r: SyntaxErrorKind)
        ensures
            r@ == self@.0,
    {
        self.kind.clone()
    }

    pub fn location(&self) -> (r: Location)
        ensures
            r == self@.1,
    {
        self.location
    }
}

} // verus!
