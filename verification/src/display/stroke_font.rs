//! Vector strokes for the console font on a 6x8 grid.
use vstd::prelude::*;
use crate::display::geometry::Point;

verus! {

pub const MAX_SEGMENTS: usize = 16;

#[derive(Clone, Copy, Debug, PartialEq, Eq, Structural)]
pub struct Segment {
    pub start: Point,
    pub end: Point,
}

pub open spec fn seg(x0: i32, y0: i32, x1: i32, y1: i32) -> Segment {
    Segment { start: Point { x: x0, y: y0 }, end: Point { x: x1, y: y1 } }
}

impl Segment {
    pub fn new(x0: i32, y0: i32, x1: i32, y1: i32) -> (r: Self)
        ensures
            r == seg(x0, y0, x1, y1),
    {
        Self { start: Point { x: x0, y: y0 }, end: Point { x: x1, y: y1 } }
    }
}

fn s(x0: i32, y0: i32, x1: i32, y1: i32) -> (r: Segment)
    ensures
        r == seg(x0, y0, x1, y1),
{
    Segment::new(x0, y0, x1, y1)
}

/// At most `MAX_SEGMENTS` strokes.
#[derive(Clone, Copy)]
pub struct Glyph {
    segments: [Segment; 16],
    len: usize,
}

impl Glyph {
    pub closed spec fn view(&self) -> Seq<Segment> {
        self.segments@.subrange(0, self.len as int)
    }

    pub closed spec fn wf(&self) -> bool {
        self.len <= MAX_SEGMENTS
    }

    pub fn empty() -> (g: Self)
        ensures
            g.wf(),
            g@ == Seq::<Segment>::empty(),
    {
        let e = Segment::new(0, 0, 0, 0);
        let g = Self { segments: [e; 16], len: 0 };
        assert(g@ =~= Seq::<Segment>::empty());
        g
    }

    /// Keeps the first `MAX_SEGMENTS` strokes of `source`.
    pub fn from_slice(source: &[Segment]) -> (g: Self)
        ensures
            g.wf(),
            source@.len() <= MAX_SEGMENTS ==> g@ == source@,
            source@.len() > MAX_SEGMENTS ==> g@ == source@.subrange(0, MAX_SEGMENTS as int),
    {
        let mut glyph = Self::empty();
        let mut index: usize = 0;
        while index < source.len() && index < MAX_SEGMENTS
            invariant
                index <= MAX_SEGMENTS,
                index <= source@.len(),
                glyph.segments@.len() == MAX_SEGMENTS,
                forall|j: int| 0 <= j < index ==> glyph.segments@[j] == source@[j],
            decreases MAX_SEGMENTS - index,
        {
            glyph.segments[index] = source[index];
            index += 1;
        }
        glyph.len = index;
        assert(source@.len() <= MAX_SEGMENTS ==> glyph@ =~= source@);
        assert(source@.len() > MAX_SEGMENTS ==> glyph@ =~= source@.subrange(0, MAX_SEGMENTS as int));
        glyph
    }

    pub fn segments(&self) -> (r: &[Segment])
        requires
            self.wf(),
        ensures
            r@ == self@,
    {
        self.segments.as_slice().split_at(self.len).0
    }

    pub fn is_empty(&self) -> (r: bool)
        requires
            self.wf(),
        ensures
            r == (self@.len() == 0),
    {
        self.len == 0
    }
}

/// Lower-case ASCII letters draw as their capitals.
pub open spec fn spec_normalize(c: char) -> char {
    if 'a' <= c <= 'z' {
        ((c as u32) - 32) as char
    } else {
        c
    }
}

pub fn normalize(ch: char) -> (r: char)
    ensures
        r == spec_normalize(ch),
{
    if 'a' <= ch && ch <= 'z' {
        ((ch as u8) - 32) as char
    } else {
        ch
    }
}

/// The strokes of each drawable character; anything else has none.
pub open spec fn glyph_table(c: char) -> Seq<Segment> {
    if c == 'A' {
        seq![seg(0, 8, 3, 0), seg(3, 0, 6, 8), seg(1, 5, 5, 5)]
    } else if c == 'B' {
        seq![seg(0, 0, 0, 8), seg(0, 0, 4, 0), seg(4, 0, 5, 1), seg(5, 1, 5, 3), seg(5, 3, 4, 4), seg(0, 4, 4, 4), seg(4, 4, 5, 5), seg(5, 5, 5, 7), seg(5, 7, 4, 8), seg(0, 8, 4, 8)]
    } else if c == 'C' {
        seq![seg(6, 1, 5, 0), seg(5, 0, 1, 0), seg(1, 0, 0, 1), seg(0, 1, 0, 7), seg(0, 7, 1, 8), seg(1, 8, 5, 8), seg(5, 8, 6, 7)]
    } else if c == 'D' {
        seq![seg(0, 0, 0, 8), seg(0, 0, 4, 0), seg(4, 0, 6, 2), seg(6, 2, 6, 6), seg(6, 6, 4, 8), seg(4, 8, 0, 8)]
    } else if c == 'E' {
        seq![seg(0, 0, 0, 8), seg(0, 0, 6, 0), seg(0, 4, 5, 4), seg(0, 8, 6, 8)]
    } else if c == 'F' {
        seq![seg(0, 0, 0, 8), seg(0, 0, 6, 0), seg(0, 4, 5, 4)]
    } else if c == 'G' {
        seq![seg(6, 1, 5, 0), seg(5, 0, 1, 0), seg(1, 0, 0, 1), seg(0, 1, 0, 7), seg(0, 7, 1, 8), seg(1, 8, 5, 8), seg(5, 8, 6, 7), seg(6, 7, 6, 5), seg(6, 5, 3, 5)]
    } else if c == 'H' {
        seq![seg(0, 0, 0, 8), seg(6, 0, 6, 8), seg(0, 4, 6, 4)]
    } else if c == 'I' {
        seq![seg(1, 0, 5, 0), seg(3, 0, 3, 8), seg(1, 8, 5, 8)]
    } else if c == 'J' {
        seq![seg(1, 0, 6, 0), seg(5, 0, 5, 7), seg(5, 7, 4, 8), seg(4, 8, 1, 8), seg(1, 8, 0, 7)]
    } else if c == 'K' {
        seq![seg(0, 0, 0, 8), seg(6, 0, 0, 4), seg(0, 4, 6, 8)]
    } else if c == 'L' {
        seq![seg(0, 0, 0, 8), seg(0, 8, 6, 8)]
    } else if c == 'M' {
        seq![seg(0, 8, 0, 0), seg(0, 0, 3, 4), seg(3, 4, 6, 0), seg(6, 0, 6, 8)]
    } else if c == 'N' {
        seq![seg(0, 8, 0, 0), seg(0, 0, 6, 8), seg(6, 8, 6, 0)]
    } else if c == 'O' {
        seq![seg(1, 0, 5, 0), seg(5, 0, 6, 1), seg(6, 1, 6, 7), seg(6, 7, 5, 8), seg(5, 8, 1, 8), seg(1, 8, 0, 7), seg(0, 7, 0, 1), seg(0, 1, 1, 0)]
    } else if c == 'P' {
        seq![seg(0, 0, 0, 8), seg(0, 0, 5, 0), seg(5, 0, 6, 1), seg(6, 1, 6, 3), seg(6, 3, 5, 4), seg(5, 4, 0, 4)]
    } else if c == 'Q' {
        seq![seg(1, 0, 5, 0), seg(5, 0, 6, 1), seg(6, 1, 6, 7), seg(6, 7, 5, 8), seg(5, 8, 1, 8), seg(1, 8, 0, 7), seg(0, 7, 0, 1), seg(0, 1, 1, 0), seg(4, 6, 6, 8)]
    } else if c == 'R' {
        seq![seg(0, 0, 0, 8), seg(0, 0, 5, 0), seg(5, 0, 6, 1), seg(6, 1, 6, 3), seg(6, 3, 5, 4), seg(5, 4, 0, 4), seg(2, 4, 6, 8)]
    } else if c == 'S' {
        seq![seg(6, 1, 5, 0), seg(5, 0, 1, 0), seg(1, 0, 0, 1), seg(0, 1, 0, 3), seg(0, 3, 1, 4), seg(1, 4, 5, 4), seg(5, 4, 6, 5), seg(6, 5, 6, 7), seg(6, 7, 5, 8), seg(5, 8, 1, 8), seg(1, 8, 0, 7)]
    } else if c == 'T' {
        seq![seg(0, 0, 6, 0), seg(3, 0, 3, 8)]
    } else if c == 'U' {
        seq![seg(0, 0, 0, 7), seg(0, 7, 1, 8), seg(1, 8, 5, 8), seg(5, 8, 6, 7), seg(6, 7, 6, 0)]
    } else if c == 'V' {
        seq![seg(0, 0, 3, 8), seg(3, 8, 6, 0)]
    } else if c == 'W' {
        seq![seg(0, 0, 1, 8), seg(1, 8, 3, 4), seg(3, 4, 5, 8), seg(5, 8, 6, 0)]
    } else if c == 'X' {
        seq![seg(0, 0, 6, 8), seg(6, 0, 0, 8)]
    } else if c == 'Y' {
        seq![seg(0, 0, 3, 4), seg(6, 0, 3, 4), seg(3, 4, 3, 8)]
    } else if c == 'Z' {
        seq![seg(0, 0, 6, 0), seg(6, 0, 0, 8), seg(0, 8, 6, 8)]
    } else if c == '0' {
        seq![seg(1, 0, 5, 0), seg(5, 0, 6, 1), seg(6, 1, 6, 7), seg(6, 7, 5, 8), seg(5, 8, 1, 8), seg(1, 8, 0, 7), seg(0, 7, 0, 1), seg(0, 1, 1, 0), seg(1, 7, 5, 1)]
    } else if c == '1' {
        seq![seg(2, 2, 3, 0), seg(3, 0, 3, 8), seg(1, 8, 5, 8)]
    } else if c == '2' {
        seq![seg(0, 1, 1, 0), seg(1, 0, 5, 0), seg(5, 0, 6, 1), seg(6, 1, 6, 3), seg(6, 3, 0, 8), seg(0, 8, 6, 8)]
    } else if c == '3' {
        seq![seg(0, 1, 1, 0), seg(1, 0, 5, 0), seg(5, 0, 6, 1), seg(6, 1, 4, 4), seg(4, 4, 6, 6), seg(6, 6, 5, 8), seg(5, 8, 1, 8), seg(1, 8, 0, 7)]
    } else if c == '4' {
        seq![seg(5, 8, 5, 0), seg(0, 5, 6, 5), seg(0, 5, 5, 0)]
    } else if c == '5' {
        seq![seg(6, 0, 0, 0), seg(0, 0, 0, 4), seg(0, 4, 5, 4), seg(5, 4, 6, 5), seg(6, 5, 6, 7), seg(6, 7, 5, 8), seg(5, 8, 0, 8)]
    } else if c == '6' {
        seq![seg(6, 1, 5, 0), seg(5, 0, 1, 0), seg(1, 0, 0, 1), seg(0, 1, 0, 7), seg(0, 7, 1, 8), seg(1, 8, 5, 8), seg(5, 8, 6, 7), seg(6, 7, 6, 5), seg(6, 5, 5, 4), seg(5, 4, 0, 4)]
    } else if c == '7' {
        seq![seg(0, 0, 6, 0), seg(6, 0, 2, 8)]
    } else if c == '8' {
        seq![seg(1, 0, 5, 0), seg(5, 0, 6, 1), seg(6, 1, 6, 3), seg(6, 3, 5, 4), seg(5, 4, 1, 4), seg(1, 4, 0, 3), seg(0, 3, 0, 1), seg(0, 1, 1, 0), seg(1, 4, 0, 5), seg(0, 5, 0, 7), seg(0, 7, 1, 8), seg(1, 8, 5, 8), seg(5, 8, 6, 7), seg(6, 7, 6, 5), seg(6, 5, 5, 4)]
    } else if c == '9' {
        seq![seg(6, 4, 1, 4), seg(1, 4, 0, 3), seg(0, 3, 0, 1), seg(0, 1, 1, 0), seg(1, 0, 5, 0), seg(5, 0, 6, 1), seg(6, 1, 6, 7), seg(6, 7, 5, 8), seg(5, 8, 1, 8)]
    } else if c == '-' {
        seq![seg(1, 4, 5, 4)]
    } else if c == '_' {
        seq![seg(0, 8, 6, 8)]
    } else if c == '=' {
        seq![seg(1, 3, 5, 3), seg(1, 6, 5, 6)]
    } else if c == '+' {
        seq![seg(3, 2, 3, 6), seg(1, 4, 5, 4)]
    } else if c == '/' {
        seq![seg(6, 0, 0, 8)]
    } else if c == '\\' {
        seq![seg(0, 0, 6, 8)]
    } else if c == '>' {
        seq![seg(1, 1, 5, 4), seg(5, 4, 1, 7)]
    } else if c == '<' {
        seq![seg(5, 1, 1, 4), seg(1, 4, 5, 7)]
    } else if c == ':' {
        seq![seg(3, 2, 3, 2), seg(3, 6, 3, 6)]
    } else if c == '.' {
        seq![seg(3, 8, 3, 8)]
    } else if c == ',' {
        seq![seg(3, 7, 2, 9)]
    } else if c == '\'' {
        seq![seg(3, 0, 2, 2)]
    } else if c == '"' {
        seq![seg(2, 0, 2, 2), seg(4, 0, 4, 2)]
    } else if c == '(' {
        seq![seg(4, 0, 2, 2), seg(2, 2, 2, 6), seg(2, 6, 4, 8)]
    } else if c == ')' {
        seq![seg(2, 0, 4, 2), seg(4, 2, 4, 6), seg(4, 6, 2, 8)]
    } else if c == '[' {
        seq![seg(4, 0, 1, 0), seg(1, 0, 1, 8), seg(1, 8, 4, 8)]
    } else if c == ']' {
        seq![seg(2, 0, 5, 0), seg(5, 0, 5, 8), seg(5, 8, 2, 8)]
    } else if c == '|' {
        seq![seg(3, 0, 3, 8)]
    } else if c == '!' {
        seq![seg(3, 0, 3, 6), seg(3, 8, 3, 8)]
    } else if c == '?' {
        seq![seg(0, 1, 1, 0), seg(1, 0, 5, 0), seg(5, 0, 6, 1), seg(6, 1, 6, 3), seg(6, 3, 3, 5), seg(3, 5, 3, 6), seg(3, 8, 3, 8)]
    } else {
        Seq::empty()
    }
}

fn table_glyph(c: char) -> (g: Glyph)
    ensures
        g.wf(),
        g@ == glyph_table(c),
{
    if c == 'A' {
        let a = [s(0, 8, 3, 0), s(3, 0, 6, 8), s(1, 5, 5, 5)];
        Glyph::from_slice(&a)
    } else if c == 'B' {
        let a = [s(0, 0, 0, 8), s(0, 0, 4, 0), s(4, 0, 5, 1), s(5, 1, 5, 3), s(5, 3, 4, 4), s(0, 4, 4, 4), s(4, 4, 5, 5), s(5, 5, 5, 7), s(5, 7, 4, 8), s(0, 8, 4, 8)];
        Glyph::from_slice(&a)
    } else if c == 'C' {
        let a = [s(6, 1, 5, 0), s(5, 0, 1, 0), s(1, 0, 0, 1), s(0, 1, 0, 7), s(0, 7, 1, 8), s(1, 8, 5, 8), s(5, 8, 6, 7)];
        Glyph::from_slice(&a)
    } else if c == 'D' {
        let a = [s(0, 0, 0, 8), s(0, 0, 4, 0), s(4, 0, 6, 2), s(6, 2, 6, 6), s(6, 6, 4, 8), s(4, 8, 0, 8)];
        Glyph::from_slice(&a)
    } else if c == 'E' {
        let a = [s(0, 0, 0, 8), s(0, 0, 6, 0), s(0, 4, 5, 4), s(0, 8, 6, 8)];
        Glyph::from_slice(&a)
    } else if c == 'F' {
        let a = [s(0, 0, 0, 8), s(0, 0, 6, 0), s(0, 4, 5, 4)];
        Glyph::from_slice(&a)
    } else if c == 'G' {
        let a = [s(6, 1, 5, 0), s(5, 0, 1, 0), s(1, 0, 0, 1), s(0, 1, 0, 7), s(0, 7, 1, 8), s(1, 8, 5, 8), s(5, 8, 6, 7), s(6, 7, 6, 5), s(6, 5, 3, 5)];
        Glyph::from_slice(&a)
    } else if c == 'H' {
        let a = [s(0, 0, 0, 8), s(6, 0, 6, 8), s(0, 4, 6, 4)];
        Glyph::from_slice(&a)
    } else if c == 'I' {
        let a = [s(1, 0, 5, 0), s(3, 0, 3, 8), s(1, 8, 5, 8)];
        Glyph::from_slice(&a)
    } else if c == 'J' {
        let a = [s(1, 0, 6, 0), s(5, 0, 5, 7), s(5, 7, 4, 8), s(4, 8, 1, 8), s(1, 8, 0, 7)];
        Glyph::from_slice(&a)
    } else if c == 'K' {
        let a = [s(0, 0, 0, 8), s(6, 0, 0, 4), s(0, 4, 6, 8)];
        Glyph::from_slice(&a)
    } else if c == 'L' {
        let a = [s(0, 0, 0, 8), s(0, 8, 6, 8)];
        Glyph::from_slice(&a)
    } else if c == 'M' {
        let a = [s(0, 8, 0, 0), s(0, 0, 3, 4), s(3, 4, 6, 0), s(6, 0, 6, 8)];
        Glyph::from_slice(&a)
    } else if c == 'N' {
        let a = [s(0, 8, 0, 0), s(0, 0, 6, 8), s(6, 8, 6, 0)];
        Glyph::from_slice(&a)
    } else if c == 'O' {
        let a = [s(1, 0, 5, 0), s(5, 0, 6, 1), s(6, 1, 6, 7), s(6, 7, 5, 8), s(5, 8, 1, 8), s(1, 8, 0, 7), s(0, 7, 0, 1), s(0, 1, 1, 0)];
        Glyph::from_slice(&a)
    } else if c == 'P' {
        let a = [s(0, 0, 0, 8), s(0, 0, 5, 0), s(5, 0, 6, 1), s(6, 1, 6, 3), s(6, 3, 5, 4), s(5, 4, 0, 4)];
        Glyph::from_slice(&a)
    } else if c == 'Q' {
        let a = [s(1, 0, 5, 0), s(5, 0, 6, 1), s(6, 1, 6, 7), s(6, 7, 5, 8), s(5, 8, 1, 8), s(1, 8, 0, 7), s(0, 7, 0, 1), s(0, 1, 1, 0), s(4, 6, 6, 8)];
        Glyph::from_slice(&a)
    } else if c == 'R' {
        let a = [s(0, 0, 0, 8), s(0, 0, 5, 0), s(5, 0, 6, 1), s(6, 1, 6, 3), s(6, 3, 5, 4), s(5, 4, 0, 4), s(2, 4, 6, 8)];
        Glyph::from_slice(&a)
    } else if c == 'S' {
        let a = [s(6, 1, 5, 0), s(5, 0, 1, 0), s(1, 0, 0, 1), s(0, 1, 0, 3), s(0, 3, 1, 4), s(1, 4, 5, 4), s(5, 4, 6, 5), s(6, 5, 6, 7), s(6, 7, 5, 8), s(5, 8, 1, 8), s(1, 8, 0, 7)];
        Glyph::from_slice(&a)
    } else if c == 'T' {
        let a = [s(0, 0, 6, 0), s(3, 0, 3, 8)];
        Glyph::from_slice(&a)
    } else if c == 'U' {
        let a = [s(0, 0, 0, 7), s(0, 7, 1, 8), s(1, 8, 5, 8), s(5, 8, 6, 7), s(6, 7, 6, 0)];
        Glyph::from_slice(&a)
    } else if c == 'V' {
        let a = [s(0, 0, 3, 8), s(3, 8, 6, 0)];
        Glyph::from_slice(&a)
    } else if c == 'W' {
        let a = [s(0, 0, 1, 8), s(1, 8, 3, 4), s(3, 4, 5, 8), s(5, 8, 6, 0)];
        Glyph::from_slice(&a)
    } else if c == 'X' {
        let a = [s(0, 0, 6, 8), s(6, 0, 0, 8)];
        Glyph::from_slice(&a)
    } else if c == 'Y' {
        let a = [s(0, 0, 3, 4), s(6, 0, 3, 4), s(3, 4, 3, 8)];
        Glyph::from_slice(&a)
    } else if c == 'Z' {
        let a = [s(0, 0, 6, 0), s(6, 0, 0, 8), s(0, 8, 6, 8)];
        Glyph::from_slice(&a)
    } else if c == '0' {
        let a = [s(1, 0, 5, 0), s(5, 0, 6, 1), s(6, 1, 6, 7), s(6, 7, 5, 8), s(5, 8, 1, 8), s(1, 8, 0, 7), s(0, 7, 0, 1), s(0, 1, 1, 0), s(1, 7, 5, 1)];
        Glyph::from_slice(&a)
    } else if c == '1' {
        let a = [s(2, 2, 3, 0), s(3, 0, 3, 8), s(1, 8, 5, 8)];
        Glyph::from_slice(&a)
    } else if c == '2' {
        let a = [s(0, 1, 1, 0), s(1, 0, 5, 0), s(5, 0, 6, 1), s(6, 1, 6, 3), s(6, 3, 0, 8), s(0, 8, 6, 8)];
        Glyph::from_slice(&a)
    } else if c == '3' {
        let a = [s(0, 1, 1, 0), s(1, 0, 5, 0), s(5, 0, 6, 1), s(6, 1, 4, 4), s(4, 4, 6, 6), s(6, 6, 5, 8), s(5, 8, 1, 8), s(1, 8, 0, 7)];
        Glyph::from_slice(&a)
    } else if c == '4' {
        let a = [s(5, 8, 5, 0), s(0, 5, 6, 5), s(0, 5, 5, 0)];
        Glyph::from_slice(&a)
    } else if c == '5' {
        let a = [s(6, 0, 0, 0), s(0, 0, 0, 4), s(0, 4, 5, 4), s(5, 4, 6, 5), s(6, 5, 6, 7), s(6, 7, 5, 8), s(5, 8, 0, 8)];
        Glyph::from_slice(&a)
    } else if c == '6' {
        let a = [s(6, 1, 5, 0), s(5, 0, 1, 0), s(1, 0, 0, 1), s(0, 1, 0, 7), s(0, 7, 1, 8), s(1, 8, 5, 8), s(5, 8, 6, 7), s(6, 7, 6, 5), s(6, 5, 5, 4), s(5, 4, 0, 4)];
        Glyph::from_slice(&a)
    } else if c == '7' {
        let a = [s(0, 0, 6, 0), s(6, 0, 2, 8)];
        Glyph::from_slice(&a)
    } else if c == '8' {
        let a = [s(1, 0, 5, 0), s(5, 0, 6, 1), s(6, 1, 6, 3), s(6, 3, 5, 4), s(5, 4, 1, 4), s(1, 4, 0, 3), s(0, 3, 0, 1), s(0, 1, 1, 0), s(1, 4, 0, 5), s(0, 5, 0, 7), s(0, 7, 1, 8), s(1, 8, 5, 8), s(5, 8, 6, 7), s(6, 7, 6, 5), s(6, 5, 5, 4)];
        Glyph::from_slice(&a)
    } else if c == '9' {
        let a = [s(6, 4, 1, 4), s(1, 4, 0, 3), s(0, 3, 0, 1), s(0, 1, 1, 0), s(1, 0, 5, 0), s(5, 0, 6, 1), s(6, 1, 6, 7), s(6, 7, 5, 8), s(5, 8, 1, 8)];
        Glyph::from_slice(&a)
    } else if c == '-' {
        let a = [s(1, 4, 5, 4)];
        Glyph::from_slice(&a)
    } else if c == '_' {
        let a = [s(0, 8, 6, 8)];
        Glyph::from_slice(&a)
    } else if c == '=' {
        let a = [s(1, 3, 5, 3), s(1, 6, 5, 6)];
        Glyph::from_slice(&a)
    } else if c == '+' {
        let a = [s(3, 2, 3, 6), s(1, 4, 5, 4)];
        Glyph::from_slice(&a)
    } else if c == '/' {
        let a = [s(6, 0, 0, 8)];
        Glyph::from_slice(&a)
    } else if c == '\\' {
        let a = [s(0, 0, 6, 8)];
        Glyph::from_slice(&a)
    } else if c == '>' {
        let a = [s(1, 1, 5, 4), s(5, 4, 1, 7)];
        Glyph::from_slice(&a)
    } else if c == '<' {
        let a = [s(5, 1, 1, 4), s(1, 4, 5, 7)];
        Glyph::from_slice(&a)
    } else if c == ':' {
        let a = [s(3, 2, 3, 2), s(3, 6, 3, 6)];
        Glyph::from_slice(&a)
    } else if c == '.' {
        let a = [s(3, 8, 3, 8)];
        Glyph::from_slice(&a)
    } else if c == ',' {
        let a = [s(3, 7, 2, 9)];
        Glyph::from_slice(&a)
    } else if c == '\'' {
        let a = [s(3, 0, 2, 2)];
        Glyph::from_slice(&a)
    } else if c == '"' {
        let a = [s(2, 0, 2, 2), s(4, 0, 4, 2)];
        Glyph::from_slice(&a)
    } else if c == '(' {
        let a = [s(4, 0, 2, 2), s(2, 2, 2, 6), s(2, 6, 4, 8)];
        Glyph::from_slice(&a)
    } else if c == ')' {
        let a = [s(2, 0, 4, 2), s(4, 2, 4, 6), s(4, 6, 2, 8)];
        Glyph::from_slice(&a)
    } else if c == '[' {
        let a = [s(4, 0, 1, 0), s(1, 0, 1, 8), s(1, 8, 4, 8)];
        Glyph::from_slice(&a)
    } else if c == ']' {
        let a = [s(2, 0, 5, 0), s(5, 0, 5, 8), s(5, 8, 2, 8)];
        Glyph::from_slice(&a)
    } else if c == '|' {
        let a = [s(3, 0, 3, 8)];
        Glyph::from_slice(&a)
    } else if c == '!' {
        let a = [s(3, 0, 3, 6), s(3, 8, 3, 8)];
        Glyph::from_slice(&a)
    } else if c == '?' {
        let a = [s(0, 1, 1, 0), s(1, 0, 5, 0), s(5, 0, 6, 1), s(6, 1, 6, 3), s(6, 3, 3, 5), s(3, 5, 3, 6), s(3, 8, 3, 8)];
        Glyph::from_slice(&a)
    } else {
        Glyph::empty()
    }
}

/// The strokes for `ch`, upper and lower case alike.
pub fn glyph(ch: char) -> (g: Glyph)
    ensures
        g.wf(),
        g@ == glyph_table(spec_normalize(ch)),
{
    table_glyph(normalize(ch))
}

/// Space and every character with strokes can be drawn.
pub fn has_glyph(ch: char) -> (r: bool)
    ensures
        r == (ch == ' ' || glyph_table(spec_normalize(ch)).len() > 0),
{
    ch == ' ' || !glyph(ch).is_empty()
}

} // verus!
