use vstd::prelude::*;

verus! {

/// An integer 2D coordinate: the top-left corner of a piece's 4x4 bounding
/// box in board space. `x` is the column (0 = left wall) and `y` the board
/// row (0 = top of the playfield, rows grow toward the floor).
#[derive(Debug, Clone, Copy)]
pub struct Position {
    x: i32,
    y: i32,
}

impl Position {
    /// The x-coordinate, for use in contracts.
    pub closed spec fn spec_x(self) -> int {
        self.x as int
    }

    /// The y-coordinate, for use in contracts.
    pub closed spec fn spec_y(self) -> int {
        self.y as int
    }

    /// Constructs a new position at the origin.
    pub fn new() -> (p: Position)
        ensures
            p.spec_x() == 0,
            p.spec_y() == 0,
    {
        Position { x: 0, y: 0 }
    }

    /// Constructs a new position at position (x, y).
    pub fn at(x: i32, y: i32) -> (p: Position)
        ensures
            p.spec_x() == x,
            p.spec_y() == y,
    {
        Position { x, y }
    }

    /// Returns the x-coordinate of the position.
    pub fn x(&self) -> (r: i32)
        ensures
            r == self.spec_x(),
    {
        self.x
    }

    /// Returns the y-coordinate of the position.
    pub fn y(&self) -> (r: i32)
        ensures
            r == self.spec_y(),
    {
        self.y
    }

    /// Sets the x-coordinate of the position.
    pub fn set_x(&mut self, x: i32)
        ensures
            final(self).spec_x() == x,
            final(self).spec_y() == old(self).spec_y(),
    {
        self.x = x;
    }

    /// Sets the y-coordinate of the position.
    pub fn set_y(&mut self, y: i32)
        ensures
            final(self).spec_x() == old(self).spec_x(),
            final(self).spec_y() == y,
    {
        self.y = y;
    }

    /// Increments the x-coordinate of the position by 1.
    pub fn move_right(&mut self)
        requires
            old(self).spec_x() < i32::MAX,
        ensures
            final(self).spec_x() == old(self).spec_x() + 1,
            final(self).spec_y() == old(self).spec_y(),
    {
        self.x = self.x + 1;
    }

    /// Decrements the x-coordinate of the position by 1.
    pub fn move_left(&mut self)
        requires
            old(self).spec_x() > i32::MIN,
        ensures
            final(self).spec_x() == old(self).spec_x() - 1,
            final(self).spec_y() == old(self).spec_y(),
    {
        self.x = self.x - 1;
    }
}

impl Default for Position {
    /// The origin, as `Position::new` returns it.
    fn default() -> (p: Self)
        ensures
            p.spec_x() == 0,
            p.spec_y() == 0,
    {
        Position { x: 0, y: 0 }
    }
}

} // verus!
