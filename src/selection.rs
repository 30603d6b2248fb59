use vstd::prelude::*;

verus! {

/// A cell of the visible content: a row index and a column (in characters).
#[derive(Clone, Copy, Debug, PartialEq, Eq, Structural)]
pub struct Position {
    pub line: usize,
    pub column: usize,
}

/// A dragged span between two positions, in either direction.
#[derive(Clone, Copy, Debug, PartialEq, Eq, Structural)]
pub struct Selection {
    pub start: Position,
    pub end: Position,
}

/// `a` comes no later than `b` in (line, column) order.
pub open spec fn pos_le(a: Position, b: Position) -> bool {
    a.line < b.line || (a.line == b.line && a.column <= b.column)
}

/// The cell under a pointer at pixel (`x`, `y`), for rows `line_height` pixels tall and
/// glyphs `glyph_width` pixels wide.
pub fn cell_at_pixel(x: u32, y: u32, line_height: u32, glyph_width: u32) -> (r: Position)
    requires
        line_height > 0,
        glyph_width > 0,
    ensures
        r.line == y / line_height,
        r.column == x / glyph_width,
{
    Position { line: (y / line_height) as usize, column: (x / glyph_width) as usize }
}

impl Selection {
    /// A zero-width selection anchored at one cell.
    pub fn new(line: usize, column: usize) -> (r: Self)
        ensures
            r.start == (Position { line, column }),
            r.end == (Position { line, column }),
    {
        let pos = Position { line, column };
        Selection { start: pos, end: pos }
    }

    /// The two endpoints in (line, column) order, whichever way the drag went.
    pub open spec fn spec_normalize(self) -> (Position, Position) {
        if pos_le(self.start, self.end) {
            (self.start, self.end)
        } else {
            (self.end, self.start)
        }
    }

    pub fn normalize(&self) -> (r: (Position, Position))
        ensures
            r == self.spec_normalize(),
            pos_le(r.0, r.1),
            (r.0 == self.start && r.1 == self.end) || (r.0 == self.end && r.1 == self.start),
    {
        if self.start.line < self.end.line || (self.start.line == self.end.line
            && self.start.column <= self.end.column) {
            (self.start, self.end)
        } else {
            (self.end, self.start)
        }
    }
}

} // verus!
