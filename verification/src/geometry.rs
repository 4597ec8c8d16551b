use vstd::prelude::*;

verus! {

/// Number of rows of the playfield, the hidden spawn rows included.
pub const PLAYFIELD_HEIGHT: usize = 24;

/// Number of columns of the playfield.
pub const PLAYFIELD_WIDTH: usize = 10;

/// Number of rows at the top of the playfield in which pieces spawn. They are
/// never drawn, but they take part in every collision test.
pub const HIDDEN_ROWS: usize = 4;

/// What a playfield cell holds: nothing, or a locked block of one of the seven
/// piece kinds. The same type names the kind of a falling piece.
#[derive(Clone, Copy, Debug, PartialEq, Eq, Structural)]
pub enum BlockType {
    Empty,
    OrangeRicky,
    BlueRicky,
    Hero,
    Teewee,
    ClevelandZ,
    RhodeIslandZ,
    Smashboy,
}

impl BlockType {
    /// One of the seven piece kinds, that is, anything but `Empty`.
    pub open spec fn is_piece(self) -> bool {
        self != BlockType::Empty
    }
}

impl Default for BlockType {
    fn default() -> (kind: BlockType)
        ensures
            kind == BlockType::Empty,
    {
        BlockType::Empty
    }
}

/// A grid coordinate as a pair of mathematical integers: the model of a
/// `Position`, free of machine bounds.
pub struct Point {
    pub row: int,
    pub col: int,
}

impl Point {
    /// The point names a cell of the playfield.
    pub open spec fn in_bounds(self) -> bool {
        0 <= self.row < PLAYFIELD_HEIGHT && 0 <= self.col < PLAYFIELD_WIDTH
    }

    /// The point moved by `rows` down and `cols` to the right.
    pub open spec fn shifted(self, rows: int, cols: int) -> Point {
        Point { row: self.row + rows, col: self.col + cols }
    }

    /// The point directly below.
    pub open spec fn below(self) -> Point {
        self.shifted(1, 0)
    }

    /// The point turned a quarter clockwise about `pivot`: the offset
    /// `(dr, dc)` from the pivot becomes `(dc, -dr)`.
    pub open spec fn rotated_about(self, pivot: Point) -> Point {
        Point {
            row: pivot.row + (self.col - pivot.col),
            col: pivot.col - (self.row - pivot.row),
        }
    }
}

/// A (row, column) pair. Both may lie outside the playfield while a move is
/// only proposed.
#[derive(Clone, Copy, Debug, PartialEq, Eq, Structural)]
pub struct Position(pub i8, pub i8);

impl View for Position {
    type V = Point;

    open spec fn view(&self) -> Point {
        Point { row: self.0 as int, col: self.1 as int }
    }
}

impl Position {
    /// Whether the position names a cell of the playfield.
    pub fn in_bounds(&self) -> (inside: bool)
        ensures
            inside == self@.in_bounds(),
    {
        0 <= self.0 && self.0 < 24 && 0 <= self.1 && self.1 < 10
    }
}

/// The four cells of a piece as a sequence of points.
pub open spec fn points(cells: [Position; 4]) -> Seq<Point> {
    Seq::new(4, |i: int| cells[i]@)
}

} // verus!
