use rand::Rng;
use vstd::prelude::*;
use crate::blocks::{
    get_blue_start, get_cleveland_start, get_hero_start, get_orange_start, get_rhode_start,
    get_smash_start, get_teewee_start, spawn_layout,
};
use crate::geometry::{
    points, BlockType, Point, Position, HIDDEN_ROWS, PLAYFIELD_HEIGHT, PLAYFIELD_WIDTH,
};
use crate::playfield::{Grid, Playfield};

verus! {

/// The model of a falling piece: its kind and its cells, the pivot first.
pub struct Piece {
    pub kind: BlockType,
    pub cells: Seq<Point>,
}

impl Piece {
    /// Every cell of the piece names a cell of the playfield.
    pub open spec fn in_bounds(self) -> bool {
        forall|i: int| 0 <= i < self.cells.len() ==> (#[trigger] self.cells[i]).in_bounds()
    }

    /// A piece as a session holds it: one of the seven kinds, four cells, all
    /// of them on the playfield.
    pub open spec fn wf(self) -> bool {
        &&& self.kind.is_piece()
        &&& self.cells.len() == 4
        &&& self.in_bounds()
    }

    /// The piece of kind `kind` at its spawn layout.
    pub open spec fn spawn(kind: BlockType) -> Piece {
        Piece { kind, cells: spawn_layout(kind) }
    }

    /// The piece with every cell moved by `rows` down and `cols` to the right.
    pub open spec fn shifted(self, rows: int, cols: int) -> Piece {
        Piece {
            kind: self.kind,
            cells: Seq::new(self.cells.len(), |i: int| self.cells[i].shifted(rows, cols)),
        }
    }

    /// The piece with every cell turned a quarter clockwise about the pivot,
    /// its first cell.
    pub open spec fn turned(self) -> Piece {
        Piece {
            kind: self.kind,
            cells: Seq::new(self.cells.len(), |i: int| self.cells[i].rotated_about(self.cells[0])),
        }
    }

    /// Cell `i` may turn: where it would go is a free cell of the grid.
    pub open spec fn turn_clear(self, grid: Grid, i: int) -> bool {
        grid.is_free(self.cells[i].rotated_about(self.cells[0]))
    }

    /// No cell is in the way of a rotation, and none would leave the grid.
    pub open spec fn can_rotate(self, grid: Grid) -> bool {
        forall|i: int| 0 <= i < self.cells.len() ==> #[trigger] self.turn_clear(grid, i)
    }

    /// The piece after a rotation command: turned, or as it was when the
    /// rotation is rejected.
    pub open spec fn rotate(self, grid: Grid) -> Piece {
        if self.can_rotate(grid) {
            self.turned()
        } else {
            self
        }
    }

    /// Every cell has a row below it.
    pub open spec fn can_descend(self) -> bool {
        forall|i: int| 0 <= i < self.cells.len() ==> (#[trigger] self.cells[i]).row + 1
            < PLAYFIELD_HEIGHT
    }

    /// The piece after a descent by one row, or as it was when a cell would
    /// leave the grid through the floor. What the playfield holds is not
    /// looked at.
    pub open spec fn descend(self) -> Piece {
        if self.can_descend() {
            self.shifted(1, 0)
        } else {
            self
        }
    }

    /// Cell `i` may move one column to the left: it stays on the grid, and
    /// unless it arrives in the leftmost column, it arrives on a free cell.
    pub open spec fn left_clear(self, grid: Grid, i: int) -> bool {
        let to = self.cells[i].shifted(0, -1);
        0 <= to.col < PLAYFIELD_WIDTH && (to.col > 0 ==> grid.is_free(to))
    }

    /// Every cell may move one column to the left.
    pub open spec fn can_move_left(self, grid: Grid) -> bool {
        forall|i: int| 0 <= i < self.cells.len() ==> #[trigger] self.left_clear(grid, i)
    }

    /// The piece after a move to the left, or as it was when the move is
    /// rejected.
    pub open spec fn move_left(self, grid: Grid) -> Piece {
        if self.can_move_left(grid) {
            self.shifted(0, -1)
        } else {
            self
        }
    }

    /// Cell `i` may move one column to the right: it stays on the grid, and
    /// unless it arrives in the rightmost column, it arrives on a free cell.
    pub open spec fn right_clear(self, grid: Grid, i: int) -> bool {
        let to = self.cells[i].shifted(0, 1);
        0 <= to.col < PLAYFIELD_WIDTH && (to.col < PLAYFIELD_WIDTH - 1 ==> grid.is_free(to))
    }

    /// Every cell may move one column to the right.
    pub open spec fn can_move_right(self, grid: Grid) -> bool {
        forall|i: int| 0 <= i < self.cells.len() ==> #[trigger] self.right_clear(grid, i)
    }

    /// The piece after a move to the right, or as it was when the move is
    /// rejected.
    pub open spec fn move_right(self, grid: Grid) -> Piece {
        if self.can_move_right(grid) {
            self.shifted(0, 1)
        } else {
            self
        }
    }

    /// Cell `i` cannot fall: it is in the bottom row, or the cell directly
    /// below it is not free.
    pub open spec fn rests_at(self, grid: Grid, i: int) -> bool {
        self.cells[i].row == PLAYFIELD_HEIGHT - 1 || !grid.is_free(self.cells[i].below())
    }

    /// The piece cannot fall any further: one of its cells rests on the floor
    /// or on something below it.
    pub open spec fn grounded(self, grid: Grid) -> bool {
        exists|i: int| 0 <= i < self.cells.len() && #[trigger] self.rests_at(grid, i)
    }

    /// Where the piece comes to rest when it falls straight down: the first
    /// position, from where it is, in which it cannot fall any further.
    pub open spec fn landing(self, grid: Grid) -> Piece
        decreases PLAYFIELD_HEIGHT - self.cells[0].row,
        when self.cells.len() > 0
    {
        if self.grounded(grid) {
            self
        } else {
            proof {
                assert(!self.rests_at(grid, 0));
            }
            self.shifted(1, 0).landing(grid)
        }
    }

    /// One of the first `n` cells of the piece is the point `p`.
    pub open spec fn covers_within(self, n: int, p: Point) -> bool {
        exists|i: int| 0 <= i < n && i < self.cells.len() && (#[trigger] self.cells[i]) == p
    }

    /// A cell of the piece is the point `p`.
    pub open spec fn covers(self, p: Point) -> bool {
        self.covers_within(self.cells.len() as int, p)
    }

    /// The grid after the first `n` cells of the piece have been written to
    /// it: the cells of the grid that they cover hold the piece's kind, all
    /// others what they held.
    pub open spec fn written_within(self, grid: Grid, n: int) -> Grid {
        Grid {
            rows: Seq::new(
                grid.rows.len(),
                |r: int|
                    Seq::new(
                        grid.rows[r].len(),
                        |c: int|
                            if self.covers_within(n, Point { row: r, col: c }) {
                                self.kind
                            } else {
                                grid.rows[r][c]
                            },
                    ),
            ),
        }
    }

    /// The grid after the piece has been written to it: the cells of the
    /// grid that the piece covers hold its kind, all others what they held.
    pub open spec fn written_to(self, grid: Grid) -> Grid {
        self.written_within(grid, self.cells.len() as int)
    }

    /// A cell of the piece lies in the hidden rows.
    pub open spec fn intrudes_hidden(self) -> bool {
        exists|i: int| 0 <= i < self.cells.len() && (#[trigger] self.cells[i]).row < HIDDEN_ROWS
    }

    /// A transform moves all cells of a piece in the same way, or none.
    pub proof fn lemma_transforms_move_all_or_none(self, grid: Grid)
        ensures
            self.rotate(grid) == self || self.rotate(grid) == self.turned(),
            self.descend() == self || self.descend() == self.shifted(1, 0),
            self.move_left(grid) == self || self.move_left(grid) == self.shifted(0, -1),
            self.move_right(grid) == self || self.move_right(grid) == self.shifted(0, 1),
    {
    }

    /// Four quarter turns bring every cell back to where it was.
    pub proof fn lemma_four_turns(self)
        ensures
            self.turned().turned().turned().turned() == self,
    {
        let once = self.turned();
        let twice = once.turned();
        let thrice = twice.turned();
        if self.cells.len() > 0 {
            assert(once.cells[0] == self.cells[0]);
            assert(twice.cells[0] == self.cells[0]);
            assert(thrice.cells[0] == self.cells[0]);
        }
        assert(thrice.turned().cells =~= self.cells);
    }

    /// Four rotations, none of them rejected, leave the piece as it was.
    pub proof fn lemma_four_rotations(self, grid: Grid)
        requires
            self.can_rotate(grid),
            self.rotate(grid).can_rotate(grid),
            self.rotate(grid).rotate(grid).can_rotate(grid),
            self.rotate(grid).rotate(grid).rotate(grid).can_rotate(grid),
        ensures
            self.rotate(grid).rotate(grid).rotate(grid).rotate(grid) == self,
    {
        self.lemma_four_turns();
    }

    /// A move to the left and then one to the right, neither rejected, leave
    /// the piece as it was.
    pub proof fn lemma_left_then_right(self, grid: Grid)
        requires
            self.can_move_left(grid),
            self.move_left(grid).can_move_right(grid),
        ensures
            self.move_left(grid).move_right(grid) == self,
    {
        assert(self.shifted(0, -1).shifted(0, 1).cells =~= self.cells);
    }

    /// A move to the right and then one to the left, neither rejected, leave
    /// the piece as it was.
    pub proof fn lemma_right_then_left(self, grid: Grid)
        requires
            self.can_move_right(grid),
            self.move_right(grid).can_move_left(grid),
        ensures
            self.move_right(grid).move_left(grid) == self,
    {
        assert(self.shifted(0, 1).shifted(0, -1).cells =~= self.cells);
    }

    /// Writing no cell leaves the grid as it is, and writing one cell more
    /// writes that cell where it is on the grid and nothing where it is not.
    pub proof fn lemma_written_within_step(self, grid: Grid, n: int)
        requires
            grid.wf(),
            0 <= n < self.cells.len(),
        ensures
            self.written_within(grid, 0) == grid,
            self.written_within(grid, n).wf(),
            self.cells[n].in_bounds() ==> self.written_within(grid, n + 1) == self.written_within(
                grid,
                n,
            ).with_cell(self.cells[n], self.kind),
            !self.cells[n].in_bounds() ==> self.written_within(grid, n + 1) == self.written_within(
                grid,
                n,
            ),
    {
        let before = self.written_within(grid, n);
        let after = self.written_within(grid, n + 1);
        assert forall|r: int| 0 <= r < grid.rows.len() implies self.written_within(grid, 0).rows[r]
            == grid.rows[r] by {
            assert(self.written_within(grid, 0).rows[r] =~= grid.rows[r]);
        }
        assert(self.written_within(grid, 0).rows =~= grid.rows);
        let at = self.cells[n];
        assert forall|r: int, c: int|
            0 <= r < PLAYFIELD_HEIGHT && 0 <= c < PLAYFIELD_WIDTH implies (self.covers_within(
            n + 1,
            Point { row: r, col: c },
        ) <==> self.covers_within(n, Point { row: r, col: c }) || at == Point { row: r, col: c }) by {
            let p = Point { row: r, col: c };
            if self.covers_within(n, p) {
                let i = choose|i: int| 0 <= i < n && i < self.cells.len() && (#[trigger] self.cells[i]) == p;
                assert(0 <= i < n + 1 && self.cells[i] == p);
            }
            if at == p {
                assert(self.cells[n] == p);
            }
        }
        if at.in_bounds() {
            let single = before.with_cell(at, self.kind);
            assert forall|r: int| 0 <= r < PLAYFIELD_HEIGHT implies after.rows[r] == single.rows[r] by {
                assert(after.rows[r] =~= single.rows[r]);
            }
            assert(after.rows =~= single.rows);
        } else {
            assert forall|r: int| 0 <= r < PLAYFIELD_HEIGHT implies after.rows[r] == before.rows[r] by {
                assert(after.rows[r] =~= before.rows[r]);
            }
            assert(after.rows =~= before.rows);
        }
    }

    /// Writing a piece to a grid keeps the grid's dimensions. Each cell that
    /// the piece covers then holds the piece's kind, and every other cell
    /// what it held.
    pub proof fn lemma_written_to(self, grid: Grid)
        requires
            grid.wf(),
        ensures
            self.written_to(grid).wf(),
            forall|p: Point|
                p.in_bounds() ==> #[trigger] self.written_to(grid).at(p) == if self.covers(p) {
                    self.kind
                } else {
                    grid.at(p)
                },
    {
    }

    /// On the grid, a piece is grounded exactly when one of its cells is in
    /// the bottom row or has a block directly below it.
    pub proof fn lemma_grounded_on_grid(self, grid: Grid)
        requires
            grid.wf(),
            self.in_bounds(),
        ensures
            self.grounded(grid) <==> exists|i: int|
                0 <= i < self.cells.len() && ((#[trigger] self.cells[i]).row == PLAYFIELD_HEIGHT - 1
                    || grid.at(self.cells[i].below()) != BlockType::Empty),
    {
        if self.grounded(grid) {
            let i = choose|i: int| 0 <= i < self.cells.len() && #[trigger] self.rests_at(grid, i);
            assert(self.cells[i].in_bounds());
            assert(self.cells[i].row == PLAYFIELD_HEIGHT - 1 || grid.at(self.cells[i].below())
                != BlockType::Empty);
        }
        if exists|i: int|
            0 <= i < self.cells.len() && ((#[trigger] self.cells[i]).row == PLAYFIELD_HEIGHT - 1
                || grid.at(self.cells[i].below()) != BlockType::Empty) {
            let i = choose|i: int|
                0 <= i < self.cells.len() && ((#[trigger] self.cells[i]).row == PLAYFIELD_HEIGHT - 1
                    || grid.at(self.cells[i].below()) != BlockType::Empty);
            assert(self.rests_at(grid, i));
        }
    }

    /// A piece on the grid that is not grounded can descend, and is still on
    /// the grid when it has.
    pub proof fn lemma_free_fall(self, grid: Grid)
        requires
            !self.grounded(grid),
        ensures
            self.can_descend(),
            self.descend() == self.shifted(1, 0),
            self.in_bounds() ==> self.shifted(1, 0).in_bounds(),
    {
        assert forall|i: int| 0 <= i < self.cells.len() implies (#[trigger] self.cells[i]).row + 1
            < PLAYFIELD_HEIGHT by {
            assert(!self.rests_at(grid, i));
        }
        assert forall|i: int| 0 <= i < self.cells.len() implies (#[trigger] self.shifted(
            1,
            0,
        ).cells[i]).in_bounds() by {
            assert(!self.rests_at(grid, i));
        }
    }

    /// Where a piece lands it is grounded, and a piece on the grid lands on
    /// the grid.
    pub proof fn lemma_landing_rests(self, grid: Grid)
        requires
            self.cells.len() > 0,
        ensures
            self.landing(grid).grounded(grid),
            self.landing(grid).kind == self.kind,
            self.landing(grid).cells.len() == self.cells.len(),
            self.in_bounds() ==> self.landing(grid).in_bounds(),
        decreases PLAYFIELD_HEIGHT - self.cells[0].row,
    {
        if !self.grounded(grid) {
            assert(!self.rests_at(grid, 0));
            self.lemma_free_fall(grid);
            self.shifted(1, 0).lemma_landing_rests(grid);
        }
    }
}

/// A falling piece: its kind and its four cells. The first cell is the pivot
/// about which the piece turns.
#[derive(Clone, Copy, Debug, PartialEq, Eq)]
pub struct Block {
    pub block_type: BlockType,
    pub blocks: [Position; 4],
}

impl View for Block {
    type V = Piece;

    open spec fn view(&self) -> Piece {
        Piece { kind: self.block_type, cells: points(self.blocks) }
    }
}

/// The piece kind that each roll of a seven-sided die stands for.
pub open spec fn kind_of_roll(roll: int) -> BlockType {
    if roll == 1 {
        BlockType::OrangeRicky
    } else if roll == 2 {
        BlockType::BlueRicky
    } else if roll == 3 {
        BlockType::Hero
    } else if roll == 4 {
        BlockType::Teewee
    } else if roll == 5 {
        BlockType::ClevelandZ
    } else if roll == 6 {
        BlockType::RhodeIslandZ
    } else {
        BlockType::Smashboy
    }
}

/// The handle to the thread-local random number generator of `rand`. What it
/// holds is not looked at here.
#[verifier::external_type_specification]
#[verifier::external_body]
pub struct ExThreadRng(rand::rngs::ThreadRng);

/// `rand::rng` hands out a handle to the thread-local generator, which it
/// seeds from the operating system on first use. Trusted, and nothing is
/// claimed of the handle.
pub assume_specification[ rand::rng ]() -> (generator: rand::rngs::ThreadRng);

/// Draws an integer from `generator` with `rand::Rng::random_range`, over the
/// inclusive range `low..=high`. Trusted: the call panics on an empty range,
/// which `requires` leaves out, and returns a value of the range. Which value
/// is left open, so nothing here says that the draw is uniform.
#[verifier::external_body]
fn random_in_range(generator: &mut rand::rngs::ThreadRng, low: i32, high: i32) -> (roll: i32)
    requires
        low <= high,
    ensures
        low <= roll <= high,
{
    generator.random_range(low..=high)
}

impl Block {
    /// The piece that a roll between 1 and 7 selects, at its spawn layout.
    pub fn from_roll(roll: i32) -> (block: Block)
        requires
            1 <= roll <= 7,
        ensures
            block@ == Piece::spawn(kind_of_roll(roll as int)),
            block@.wf(),
    {
        let (block_type, blocks) = if roll == 1 {
            (BlockType::OrangeRicky, get_orange_start())
        } else if roll == 2 {
            (BlockType::BlueRicky, get_blue_start())
        } else if roll == 3 {
            (BlockType::Hero, get_hero_start())
        } else if roll == 4 {
            (BlockType::Teewee, get_teewee_start())
        } else if roll == 5 {
            (BlockType::ClevelandZ, get_cleveland_start())
        } else if roll == 6 {
            (BlockType::RhodeIslandZ, get_rhode_start())
        } else {
            (BlockType::Smashboy, get_smash_start())
        };
        Block { block_type, blocks }
    }

    /// A piece of a kind drawn at random, at its spawn layout.
    pub fn get_random() -> (block: Block)
        ensures
            block.block_type.is_piece(),
            block@ == Piece::spawn(block.block_type),
            block@.wf(),
    {
        let mut generator = rand::rng();
        let roll = random_in_range(&mut generator, 1, 7);
        Block::from_roll(roll)
    }

    /// Whether every cell of the piece is on the playfield.
    pub fn in_bounds(&self) -> (inside: bool)
        ensures
            inside == self@.in_bounds(),
    {
        let mut i: usize = 0;
        while i < 4
            invariant
                i <= 4,
                forall|j: int| 0 <= j < i ==> (#[trigger] self@.cells[j]).in_bounds(),
            decreases 4 - i,
        {
            if !self.blocks[i].in_bounds() {
                assert(!self@.cells[i as int].in_bounds());
                return false;
            }
            i += 1;
        }
        true
    }

    /// Turns the piece a quarter clockwise about its first cell. The piece
    /// comes back unchanged when a cell would leave the playfield or land on
    /// a block; no other place is tried.
    pub fn rotate(&self, playfield: &Playfield) -> (out: Block)
        ensures
            out@ == self@.rotate(playfield@),
            !self@.can_rotate(playfield@) ==> out == *self,
    {
        let pivot = self.blocks[0];
        let mut cells = self.blocks;
        let mut i: usize = 0;
        while i < 4
            invariant
                i <= 4,
                pivot == self.blocks[0],
                forall|j: int| 0 <= j < i ==> #[trigger] self@.turn_clear(playfield@, j),
                forall|j: int| 0 <= j < i ==> (#[trigger] cells[j])@ == self@.turned().cells[j],
            decreases 4 - i,
        {
            let from = self.blocks[i];
            let row: i16 = pivot.0 as i16 + (from.1 as i16 - pivot.1 as i16);
            let col: i16 = pivot.1 as i16 - (from.0 as i16 - pivot.0 as i16);
            if !playfield.is_free(row, col) {
                assert(!self@.turn_clear(playfield@, i as int));
                return *self;
            }
            cells[i] = Position(row as i8, col as i8);
            i += 1;
        }
        let out = Block { block_type: self.block_type, blocks: cells };
        assert(out@.cells =~= self@.turned().cells);
        out
    }

    /// Moves the piece down by one row. The piece comes back unchanged when a
    /// cell would leave the playfield through the floor. Blocks in the way do
    /// not stop this move: the playfield is not consulted, and a caller that
    /// minds them asks `check_collision` first.
    pub fn descend(&self, _playfield: &Playfield) -> (out: Block)
        ensures
            out@ == self@.descend(),
            !self@.can_descend() ==> out == *self,
    {
        let mut cells = self.blocks;
        let mut i: usize = 0;
        while i < 4
            invariant
                i <= 4,
                forall|j: int| 0 <= j < i ==> (#[trigger] self@.cells[j]).row + 1 < PLAYFIELD_HEIGHT,
                forall|j: int| 0 <= j < i ==> (#[trigger] cells[j])@ == self@.shifted(1, 0).cells[j],
            decreases 4 - i,
        {
            let from = self.blocks[i];
            if from.0 >= PLAYFIELD_HEIGHT as i8 - 1 {
                assert(!(self@.cells[i as int].row + 1 < PLAYFIELD_HEIGHT));
                return *self;
            }
            cells[i] = Position(from.0 + 1, from.1);
            i += 1;
        }
        let out = Block { block_type: self.block_type, blocks: cells };
        assert(out@.cells =~= self@.shifted(1, 0).cells);
        out
    }

    /// Moves the piece one column to the left. The piece comes back unchanged
    /// when a cell would leave the playfield, or would land on a block in any
    /// column but the leftmost: a cell that arrives in the leftmost column is
    /// not tested against what that column holds.
    pub fn move_left(&self, playfield: &Playfield) -> (out: Block)
        ensures
            out@ == self@.move_left(playfield@),
            !self@.can_move_left(playfield@) ==> out == *self,
    {
        let mut cells = self.blocks;
        let mut i: usize = 0;
        while i < 4
            invariant
                i <= 4,
                forall|j: int| 0 <= j < i ==> #[trigger] self@.left_clear(playfield@, j),
                forall|j: int| 0 <= j < i ==> (#[trigger] cells[j])@ == self@.shifted(0, -1).cells[j],
            decreases 4 - i,
        {
            let from = self.blocks[i];
            let col: i16 = from.1 as i16 - 1;
            if col < 0 || col >= PLAYFIELD_WIDTH as i16 || (col > 0 && !playfield.is_free(
                from.0 as i16,
                col,
            )) {
                assert(!self@.left_clear(playfield@, i as int));
                return *self;
            }
            cells[i] = Position(from.0, col as i8);
            i += 1;
        }
        let out = Block { block_type: self.block_type, blocks: cells };
        assert(out@.cells =~= self@.shifted(0, -1).cells);
        out
    }

    /// Moves the piece one column to the right. The piece comes back
    /// unchanged when a cell would leave the playfield, or would land on a
    /// block in any column but the rightmost: a cell that arrives in the
    /// rightmost column is not tested against what that column holds.
    pub fn move_right(&self, playfield: &Playfield) -> (out: Block)
        ensures
            out@ == self@.move_right(playfield@),
            !self@.can_move_right(playfield@) ==> out == *self,
    {
        let mut cells = self.blocks;
        let mut i: usize = 0;
        while i < 4
            invariant
                i <= 4,
                forall|j: int| 0 <= j < i ==> #[trigger] self@.right_clear(playfield@, j),
                forall|j: int| 0 <= j < i ==> (#[trigger] cells[j])@ == self@.shifted(0, 1).cells[j],
            decreases 4 - i,
        {
            let from = self.blocks[i];
            let col: i16 = from.1 as i16 + 1;
            if col < 0 || col >= PLAYFIELD_WIDTH as i16 || (col < PLAYFIELD_WIDTH as i16 - 1
                && !playfield.is_free(from.0 as i16, col)) {
                assert(!self@.right_clear(playfield@, i as int));
                return *self;
            }
            cells[i] = Position(from.0, col as i8);
            i += 1;
        }
        let out = Block { block_type: self.block_type, blocks: cells };
        assert(out@.cells =~= self@.shifted(0, 1).cells);
        out
    }

    /// Whether the piece cannot fall any further: a cell of it is in the
    /// bottom row, or the cell directly below one of its cells is not free.
    pub fn check_collision(&self, playfield: &Playfield) -> (hit: bool)
        ensures
            hit == self@.grounded(playfield@),
    {
        let mut i: usize = 0;
        while i < 4
            invariant
                i <= 4,
                forall|j: int| 0 <= j < i ==> !#[trigger] self@.rests_at(playfield@, j),
            decreases 4 - i,
        {
            let at = self.blocks[i];
            if at.0 == PLAYFIELD_HEIGHT as i8 - 1 || !playfield.is_free(at.0 as i16 + 1, at.1 as i16) {
                assert(self@.rests_at(playfield@, i as int));
                return true;
            }
            i += 1;
        }
        false
    }
}

} // verus!
