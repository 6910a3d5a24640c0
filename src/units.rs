//! Geometry value types shared by the other modules.
use vstd::prelude::*;

verus! {

/// A cell position: `x` is the column, `y` the row, origin at the top left.
#[derive(Debug, Clone, Copy, PartialEq, Eq, Structural)]
pub struct Pos {
    pub x: u16,
    pub y: u16,
}

impl Pos {
    pub fn new(x: u16, y: u16) -> (r: Pos)
        ensures
            r.x == x,
            r.y == y,
    {
        Pos { x, y }
    }
}

/// A width and a height, in cells.
#[derive(Debug, Clone, Copy, PartialEq, Eq, Structural)]
pub struct Size {
    pub width: u16,
    pub height: u16,
}

impl Size {
    /// The column at half the width, rounded down.
    pub fn mid_x(&self) -> (r: u16)
        ensures
            r == self.width / 2,
    {
        self.width / 2
    }

    /// The row at half the height, rounded down.
    pub fn mid_y(&self) -> (r: u16)
        ensures
            r == self.height / 2,
    {
        self.height / 2
    }

    pub fn new(width: u16, height: u16) -> (r: Size)
        ensures
            r.width == width,
            r.height == height,
    {
        Size { width, height }
    }
}

} // verus!
