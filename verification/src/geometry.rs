//! Screen rectangles and directions.

use vstd::prelude::*;

verus! {

/// A rectangle of terminal cells.
#[derive(Debug, Clone, Copy, PartialEq, Eq, Structural)]
pub struct Rect {
    pub x: u16,
    pub y: u16,
    pub width: u16,
    pub height: u16,
}

impl Rect {
    /// Whether the cell `(col, row)` lies in the rectangle.
    pub open spec fn covers(self, col: int, row: int) -> bool {
        self.x <= col < self.x + self.width && self.y <= row < self.y + self.height
    }

    /// Whether every cell of the rectangle lies within `outer`.
    pub open spec fn inside(self, outer: Rect) -> bool {
        outer.x <= self.x && self.x + self.width <= outer.x + outer.width && outer.y <= self.y
            && self.y + self.height <= outer.y + outer.height
    }

    /// Whether the cell `(col, row)` lies in the rectangle.
    pub fn contains(&self, col: u16, row: u16) -> (r: bool)
        ensures
            r == self.covers(col as int, row as int),
    {
        self.x <= col && (col as u32) < self.x as u32 + self.width as u32 && self.y <= row && (
        row as u32) < self.y as u32 + self.height as u32
    }
}

/// A direction on the screen.
#[derive(Debug, Clone, Copy, PartialEq, Eq, Structural)]
pub enum Direction {
    Left,
    Right,
    Up,
    Down,
}

/// A fraction, kept exact: `offset / span`.
#[derive(Debug, Clone, Copy, PartialEq, Eq, Structural)]
pub struct Ratio {
    pub offset: u16,
    pub span: u16,
}

} // verus!
