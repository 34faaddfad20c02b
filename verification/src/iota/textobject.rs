//! Text objects: what a motion or an edit refers to (a char, a line, a word),
//! where within it (an anchor), and how far away (an offset).

use vstd::prelude::*;

use super::buffer::Mark;

verus! {

/// The kind of a text object.
#[derive(Copy, Clone, Debug, PartialEq, Eq, Structural)]
pub enum Kind {
    Char,
    Line(Anchor),
    Word(Anchor),
}

impl Kind {
    pub open spec fn spec_with_anchor(self, anchor: Anchor) -> Kind {
        match self {
            Kind::Char => Kind::Char,
            Kind::Line(_) => Kind::Line(anchor),
            Kind::Word(_) => Kind::Word(anchor),
        }
    }

    /// The same kind of object, anchored at `anchor` (a char has no anchor).
    pub fn with_anchor(&self, anchor: Anchor) -> (r: Kind)
        ensures
            r == self.spec_with_anchor(anchor),
    {
        match *self {
            Kind::Char => Kind::Char,
            Kind::Line(_) => Kind::Line(anchor),
            Kind::Word(_) => Kind::Word(anchor),
        }
    }

    /// The anchor of this kind; a char has the default anchor.
    pub fn get_anchor(&self) -> (r: Anchor)
        ensures
            r == (match *self {
                Kind::Char => Anchor::Same,
                Kind::Line(a) => a,
                Kind::Word(a) => a,
            }),
    {
        match *self {
            Kind::Char => Anchor::default(),
            Kind::Line(a) => a,
            Kind::Word(a) => a,
        }
    }
}

impl Default for Kind {
    fn default() -> (r: Kind)
        ensures
            r == Kind::Char,
    {
        Kind::Char
    }
}

/// Where an index lies relative to a text object.
#[derive(Copy, Clone, Debug, PartialEq, Eq, Structural)]
pub enum Anchor {
    /// Index just prior to TextObject
    Before,
    /// First index within TextObject
    Start,
    /// Last index within TextObject
    End,
    /// First index after TextObject
    After,
    /// Same as index within current TextObject of the same Kind
    Same,
}

impl Default for Anchor {
    fn default() -> (r: Anchor)
        ensures
            r == Anchor::Same,
    {
        Anchor::Same
    }
}

/// How far a text object is: absolutely, or a number of objects from a mark.
#[derive(Copy, Clone, Debug, PartialEq, Eq, Structural)]
pub enum Offset {
    Absolute(usize),
    Backward(usize, Mark),
    Forward(usize, Mark),
}

impl Offset {
    /// The same offset with its count replaced by `n`.
    pub fn with_num(&self, n: usize) -> (r: Offset)
        ensures
            r == (match *self {
                Offset::Absolute(_) => Offset::Absolute(n),
                Offset::Backward(_, m) => Offset::Backward(n, m),
                Offset::Forward(_, m) => Offset::Forward(n, m),
            }),
    {
        match *self {
            Offset::Absolute(_) => Offset::Absolute(n),
            Offset::Backward(_, m) => Offset::Backward(n, m),
            Offset::Forward(_, m) => Offset::Forward(n, m),
        }
    }
}

impl Default for Offset {
    fn default() -> (r: Offset)
        ensures
            r == Offset::Forward(0, Mark::Cursor(0)),
    {
        Offset::Forward(0, Mark::Cursor(0))
    }
}

/// A text object: a kind and an offset.
#[derive(Copy, Clone, Debug, PartialEq, Eq, Structural)]
pub struct TextObject {
    pub kind: Kind,
    pub offset: Offset,
}

impl Default for TextObject {
    fn default() -> (r: TextObject)
        ensures
            r == (TextObject { kind: Kind::Char, offset: Offset::Forward(0, Mark::Cursor(0)) }),
    {
        TextObject { kind: Kind::default(), offset: Offset::default() }
    }
}

} // verus!
