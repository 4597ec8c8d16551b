use vstd::prelude::*;
use crate::geometry::{BlockType, Point, HIDDEN_ROWS, PLAYFIELD_HEIGHT, PLAYFIELD_WIDTH};

verus! {

/// No cell of the row is empty.
pub open spec fn row_complete(row: Seq<BlockType>) -> bool {
    forall|c: int| 0 <= c < row.len() ==> row[c] != BlockType::Empty
}

/// A row of the playfield's width with every cell empty.
pub open spec fn blank_row() -> Seq<BlockType> {
    Seq::new(PLAYFIELD_WIDTH as nat, |c: int| BlockType::Empty)
}

/// The test "this row is complete", as a value that `filter` takes.
pub open spec fn complete() -> spec_fn(Seq<BlockType>) -> bool {
    |row: Seq<BlockType>| row_complete(row)
}

/// The test "this row has an empty cell", as a value that `filter` takes.
pub open spec fn incomplete() -> spec_fn(Seq<BlockType>) -> bool {
    |row: Seq<BlockType>| !row_complete(row)
}

/// The test "this cell holds a block", as a value that `filter` takes.
pub open spec fn filled() -> spec_fn(BlockType) -> bool {
    |kind: BlockType| kind != BlockType::Empty
}

/// Number of cells of the row that hold a block.
pub open spec fn filled_in_row(row: Seq<BlockType>) -> nat {
    row.filter(filled()).len()
}

/// Number of cells of the rows that hold a block.
pub open spec fn filled_in_rows(rows: Seq<Seq<BlockType>>) -> nat
    decreases rows.len(),
{
    if rows.len() == 0 {
        0
    } else {
        filled_in_rows(rows.drop_last()) + filled_in_row(rows.last())
    }
}

/// The model of a playfield: its rows from top to bottom, each a sequence of
/// cells from left to right.
pub struct Grid {
    pub rows: Seq<Seq<BlockType>>,
}

impl Grid {
    /// The grid has the playfield's height and each row its width.
    pub open spec fn wf(self) -> bool {
        &&& self.rows.len() == PLAYFIELD_HEIGHT
        &&& forall|r: int| 0 <= r < PLAYFIELD_HEIGHT ==> (#[trigger] self.rows[r]).len() == PLAYFIELD_WIDTH
    }

    /// The grid with every cell empty.
    pub open spec fn blank() -> Grid {
        Grid { rows: Seq::new(PLAYFIELD_HEIGHT as nat, |r: int| blank_row()) }
    }

    /// What the cell at `p` holds.
    pub open spec fn at(self, p: Point) -> BlockType {
        self.rows[p.row][p.col]
    }

    /// `p` names a cell of the grid and that cell is empty. A point outside
    /// the grid is never free.
    pub open spec fn is_free(self, p: Point) -> bool {
        p.in_bounds() && self.at(p) == BlockType::Empty
    }

    /// The grid with `kind` written to the cell at `p`.
    pub open spec fn with_cell(self, p: Point, kind: BlockType) -> Grid {
        Grid { rows: self.rows.update(p.row, self.rows[p.row].update(p.col, kind)) }
    }

    /// Every hidden row is blank.
    pub open spec fn hidden_blank(self) -> bool {
        forall|r: int| 0 <= r < HIDDEN_ROWS ==> self.rows[r] == blank_row()
    }

    /// The hidden rows, top to bottom.
    pub open spec fn hidden(self) -> Seq<Seq<BlockType>> {
        self.rows.subrange(0, HIDDEN_ROWS as int)
    }

    /// The rows below the hidden ones, top to bottom.
    pub open spec fn visible(self) -> Seq<Seq<BlockType>> {
        self.rows.subrange(HIDDEN_ROWS as int, PLAYFIELD_HEIGHT as int)
    }

    /// Number of complete rows below the hidden ones.
    pub open spec fn full_rows(self) -> nat {
        self.visible().filter(complete()).len()
    }

    /// Number of cells that hold a block.
    pub open spec fn filled_count(self) -> nat {
        filled_in_rows(self.rows)
    }

    /// The grid after row `row` has been taken out: each visible row above it
    /// moves down by one and the topmost visible row becomes blank. The hidden
    /// rows and the rows below `row` stay; a `row` among the hidden rows takes
    /// nothing out.
    pub open spec fn compacted(self, row: int) -> Grid {
        if row < HIDDEN_ROWS {
            self
        } else {
            Grid {
                rows: Seq::new(
                    self.rows.len(),
                    |r: int|
                        if r < HIDDEN_ROWS || r > row {
                            self.rows[r]
                        } else if r == HIDDEN_ROWS {
                            blank_row()
                        } else {
                            self.rows[r - 1]
                        },
                ),
            }
        }
    }

    /// The grid after all complete visible rows have been cleared: the hidden
    /// rows as they were, then one blank row for each row cleared, then the
    /// visible rows that were not complete, in their order.
    pub open spec fn swept(self) -> Grid {
        Grid {
            rows: self.hidden() + Seq::new(self.full_rows(), |r: int| blank_row())
                + self.visible().filter(incomplete()),
        }
    }
}

/// A filter that every element passes keeps the sequence as it is.
proof fn lemma_filter_all<A>(s: Seq<A>, pred: spec_fn(A) -> bool)
    requires
        forall|i: int| 0 <= i < s.len() ==> pred(s[i]),
    ensures
        s.filter(pred) == s,
    decreases s.len(),
{
    reveal(Seq::filter);
    if s.len() > 0 {
        lemma_filter_all(s.drop_last(), pred);
        assert(s.drop_last().push(s.last()) =~= s);
    }
}

/// A filter that no element passes leaves nothing.
proof fn lemma_filter_none<A>(s: Seq<A>, pred: spec_fn(A) -> bool)
    requires
        forall|i: int| 0 <= i < s.len() ==> !pred(s[i]),
    ensures
        s.filter(pred) == Seq::<A>::empty(),
    decreases s.len(),
{
    reveal(Seq::filter);
    if s.len() > 0 {
        lemma_filter_none(s.drop_last(), pred);
    }
}

/// Each row is either complete or not.
proof fn lemma_rows_partition(rows: Seq<Seq<BlockType>>)
    ensures
        rows.filter(complete()).len() + rows.filter(incomplete()).len() == rows.len(),
    decreases rows.len(),
{
    reveal(Seq::filter);
    if rows.len() > 0 {
        lemma_rows_partition(rows.drop_last());
    }
}

/// The cell count of two runs of rows, one after the other, is the sum of
/// their counts.
proof fn lemma_filled_in_rows_add(a: Seq<Seq<BlockType>>, b: Seq<Seq<BlockType>>)
    ensures
        filled_in_rows(a + b) == filled_in_rows(a) + filled_in_rows(b),
    decreases b.len(),
{
    if b.len() == 0 {
        assert(a + b =~= a);
    } else {
        lemma_filled_in_rows_add(a, b.drop_last());
        assert((a + b).drop_last() =~= a + b.drop_last());
        assert((a + b).last() == b.last());
    }
}

/// Blank rows hold no block.
proof fn lemma_filled_in_blank_rows(n: nat)
    ensures
        filled_in_rows(Seq::new(n, |r: int| blank_row())) == 0,
    decreases n,
{
    let rows = Seq::new(n, |r: int| blank_row());
    if n > 0 {
        lemma_filled_in_blank_rows((n - 1) as nat);
        assert(rows.drop_last() =~= Seq::new((n - 1) as nat, |r: int| blank_row()));
        lemma_filter_none(blank_row(), filled());
    }
}

/// Taking the complete rows out of rows of the playfield's width takes that
/// width of blocks out for each of them.
proof fn lemma_filled_in_kept_rows(rows: Seq<Seq<BlockType>>)
    requires
        forall|r: int| 0 <= r < rows.len() ==> (#[trigger] rows[r]).len() == PLAYFIELD_WIDTH,
    ensures
        filled_in_rows(rows.filter(incomplete())) + PLAYFIELD_WIDTH * rows.filter(complete()).len()
            == filled_in_rows(rows),
    decreases rows.len(),
{
    reveal(Seq::filter);
    if rows.len() > 0 {
        let rest = rows.drop_last();
        let last = rows.last();
        lemma_filled_in_kept_rows(rest);
        if row_complete(last) {
            lemma_filter_all(last, filled());
        } else {
            assert(rest.filter(incomplete()).push(last).drop_last() =~= rest.filter(incomplete()));
        }
    }
}

impl Grid {
    /// Taking a complete visible row out changes nothing in what a sweep
    /// leaves, and leaves one complete row less to clear.
    pub proof fn lemma_compacted_then_swept(self, row: int)
        requires
            self.wf(),
            HIDDEN_ROWS <= row < PLAYFIELD_HEIGHT,
            row_complete(self.rows[row]),
        ensures
            self.compacted(row).wf(),
            self.compacted(row).swept() == self.swept(),
            self.compacted(row).full_rows() + 1 == self.full_rows(),
    {
        let shifted = self.compacted(row);
        let k = row - HIDDEN_ROWS;
        let rows = self.visible();
        let above = rows.subrange(0, k);
        let below = rows.subrange(k + 1, rows.len() as int);
        let top = seq![blank_row()];
        assert(blank_row()[0] == BlockType::Empty);
        assert(rows =~= above.push(rows[k]) + below);
        assert(shifted.visible() =~= (top + above) + below);
        assert(shifted.hidden() =~= self.hidden());

        Seq::filter_distributes_over_add(above.push(rows[k]), below, incomplete());
        above.lemma_filter_push(rows[k], incomplete());
        Seq::filter_distributes_over_add(top + above, below, incomplete());
        Seq::filter_distributes_over_add(top, above, incomplete());
        lemma_filter_all(top, incomplete());

        Seq::filter_distributes_over_add(above.push(rows[k]), below, complete());
        above.lemma_filter_push(rows[k], complete());
        Seq::filter_distributes_over_add(top + above, below, complete());
        Seq::filter_distributes_over_add(top, above, complete());
        lemma_filter_none(top, complete());

        assert(shifted.visible().filter(incomplete()) =~= top + rows.filter(incomplete()));
        assert(shifted.visible().filter(complete()) =~= above.filter(complete()) + below.filter(
            complete(),
        ));
        assert(rows.filter(complete()) =~= above.filter(complete()).push(rows[k]) + below.filter(
            complete(),
        ));
        assert(shifted.swept().rows =~= self.swept().rows);
    }

    /// A grid without a complete visible row is what a sweep of it leaves.
    pub proof fn lemma_swept_when_no_row_full(self)
        requires
            self.wf(),
            forall|r: int| HIDDEN_ROWS <= r < PLAYFIELD_HEIGHT ==> !row_complete(self.rows[r]),
        ensures
            self.swept() == self,
            self.full_rows() == 0,
    {
        lemma_filter_all(self.visible(), incomplete());
        lemma_filter_none(self.visible(), complete());
        assert(self.swept().rows =~= self.rows);
    }

    /// Where exactly one visible row is complete, a sweep takes that row out
    /// and does nothing else.
    pub proof fn lemma_sweep_of_one_full_row(self, row: int)
        requires
            self.wf(),
            HIDDEN_ROWS <= row < PLAYFIELD_HEIGHT,
            forall|r: int|
                HIDDEN_ROWS <= r < PLAYFIELD_HEIGHT ==> (row_complete(#[trigger] self.rows[r]) <==> r
                    == row),
        ensures
            self.swept() == self.compacted(row),
    {
        let shifted = self.compacted(row);
        self.lemma_compacted_then_swept(row);
        assert(blank_row()[0] == BlockType::Empty);
        assert forall|r: int| HIDDEN_ROWS <= r < PLAYFIELD_HEIGHT implies !row_complete(
            shifted.rows[r],
        ) by {
            if r > row {
                assert(shifted.rows[r] == self.rows[r]);
            } else if r > HIDDEN_ROWS {
                assert(shifted.rows[r] == self.rows[r - 1]);
            }
        }
        shifted.lemma_swept_when_no_row_full();
    }

    /// A sweep leaves the hidden rows as they were, leaves no complete row
    /// among the visible ones, and takes out exactly one playfield width of
    /// blocks for each row that was complete.
    pub proof fn lemma_sweep_clears_full_rows(self)
        requires
            self.wf(),
        ensures
            self.swept().wf(),
            self.swept().hidden() == self.hidden(),
            self.swept().full_rows() == 0,
            self.swept().filled_count() + PLAYFIELD_WIDTH * self.full_rows() == self.filled_count(),
    {
        let swept = self.swept();
        let blanks = Seq::new(self.full_rows(), |r: int| blank_row());
        let kept = self.visible().filter(incomplete());
        lemma_rows_partition(self.visible());
        assert(blank_row()[0] == BlockType::Empty);
        assert forall|r: int| 0 <= r < PLAYFIELD_HEIGHT implies (#[trigger] swept.rows[r]).len()
            == PLAYFIELD_WIDTH by {
            if r >= HIDDEN_ROWS + blanks.len() {
                let row = kept[r - HIDDEN_ROWS - blanks.len()];
                assert(self.visible().contains(row)) by {
                    self.visible().lemma_filter_contains_rev(incomplete(), row);
                }
            }
        }
        assert(swept.hidden() =~= self.hidden());
        assert forall|r: int| HIDDEN_ROWS <= r < PLAYFIELD_HEIGHT implies !row_complete(
            swept.rows[r],
        ) by {
            if r >= HIDDEN_ROWS + blanks.len() {
                assert(incomplete()(kept[r - HIDDEN_ROWS - blanks.len()]));
            }
        }
        swept.lemma_swept_when_no_row_full();

        lemma_filled_in_rows_add(self.hidden() + blanks, kept);
        lemma_filled_in_rows_add(self.hidden(), blanks);
        lemma_filled_in_blank_rows(self.full_rows());
        lemma_filled_in_kept_rows(self.visible());
        assert(self.rows =~= self.hidden() + self.visible());
        lemma_filled_in_rows_add(self.hidden(), self.visible());
    }
}

/// The occupancy grid: `PLAYFIELD_HEIGHT` rows of `PLAYFIELD_WIDTH` cells, row
/// 0 at the top.
#[derive(Clone, Copy, Debug, PartialEq, Eq)]
pub struct Playfield {
    pub cells: [[BlockType; PLAYFIELD_WIDTH]; PLAYFIELD_HEIGHT],
}

impl View for Playfield {
    type V = Grid;

    open spec fn view(&self) -> Grid {
        Grid { rows: Seq::new(PLAYFIELD_HEIGHT as nat, |r: int| self.cells[r]@) }
    }
}

impl Playfield {
    /// The view of a playfield always has the playfield's dimensions.
    pub proof fn lemma_view_wf(self)
        ensures
            self@.wf(),
    {
    }

    /// A playfield with every cell empty.
    pub fn new() -> (playfield: Playfield)
        ensures
            playfield@ == Grid::blank(),
    {
        let playfield = Playfield { cells: [[BlockType::Empty; PLAYFIELD_WIDTH]; PLAYFIELD_HEIGHT] };
        proof {
            assert forall|r: int| 0 <= r < PLAYFIELD_HEIGHT implies playfield@.rows[r]
                == blank_row() by {
                assert(playfield.cells[r]@ =~= blank_row());
            }
            assert(playfield@.rows =~= Grid::blank().rows);
        }
        playfield
    }

    /// What the cell in row `row`, column `col` holds.
    pub fn get(&self, row: usize, col: usize) -> (kind: BlockType)
        requires
            row < PLAYFIELD_HEIGHT,
            col < PLAYFIELD_WIDTH,
        ensures
            kind == self@.at(Point { row: row as int, col: col as int }),
    {
        self.cells[row][col]
    }

    /// Whether (`row`, `col`) names a cell of the playfield and that cell is
    /// empty. Coordinates outside the playfield are never free.
    pub fn is_free(&self, row: i16, col: i16) -> (free: bool)
        ensures
            free == self@.is_free(Point { row: row as int, col: col as int }),
    {
        if row < 0 || row >= PLAYFIELD_HEIGHT as i16 || col < 0 || col >= PLAYFIELD_WIDTH as i16 {
            return false;
        }
        self.cells[row as usize][col as usize] == BlockType::Empty
    }

    /// Writes `kind` to the cell in row `row`, column `col`.
    pub fn write_cell(&mut self, row: usize, col: usize, kind: BlockType)
        requires
            row < PLAYFIELD_HEIGHT,
            col < PLAYFIELD_WIDTH,
        ensures
            final(self)@ == old(self)@.with_cell(Point { row: row as int, col: col as int }, kind),
    {
        self.cells[row][col] = kind;
        proof {
            let after = old(self)@.with_cell(Point { row: row as int, col: col as int }, kind);
            assert forall|r: int| 0 <= r < PLAYFIELD_HEIGHT implies self@.rows[r]
                == after.rows[r] by {
                assert(self@.rows[r] =~= after.rows[r]);
            }
            assert(self@.rows =~= after.rows);
        }
    }

    /// Whether no cell of row `row` is empty.
    pub fn is_row_complete(&self, row: usize) -> (full: bool)
        requires
            row < PLAYFIELD_HEIGHT,
        ensures
            full == row_complete(self@.rows[row as int]),
    {
        let mut col: usize = 0;
        while col < PLAYFIELD_WIDTH
            invariant
                row < PLAYFIELD_HEIGHT,
                col <= PLAYFIELD_WIDTH,
                forall|c: int| 0 <= c < col ==> self@.rows[row as int][c] != BlockType::Empty,
            decreases PLAYFIELD_WIDTH - col,
        {
            if self.cells[row][col] == BlockType::Empty {
                assert(self@.rows[row as int][col as int] == BlockType::Empty);
                return false;
            }
            col += 1;
        }
        true
    }

    /// Takes row `row` out of the playfield: the visible rows above it move
    /// down by one and the topmost visible row becomes blank. The hidden rows
    /// are left alone, and nothing happens when `row` is one of them.
    pub fn shift_down_from_row(&mut self, row: usize)
        requires
            row < PLAYFIELD_HEIGHT,
        ensures
            final(self)@ == old(self)@.compacted(row as int),
    {
        if row < HIDDEN_ROWS {
            return ;
        }
        let mut r: usize = row;
        while r > HIDDEN_ROWS
            invariant
                HIDDEN_ROWS <= r <= row < PLAYFIELD_HEIGHT,
                forall|i: int| 0 <= i <= r ==> self.cells[i] == old(self).cells[i],
                forall|i: int| r < i <= row ==> self.cells[i] == old(self).cells[i - 1],
                forall|i: int| row < i < PLAYFIELD_HEIGHT ==> self.cells[i] == old(self).cells[i],
            decreases r,
        {
            self.cells[r] = self.cells[r - 1];
            r -= 1;
        }
        self.cells[HIDDEN_ROWS] = [BlockType::Empty; PLAYFIELD_WIDTH];
        proof {
            let after = old(self)@.compacted(row as int);
            assert forall|i: int| 0 <= i < PLAYFIELD_HEIGHT implies self@.rows[i]
                == after.rows[i] by {
                if i == HIDDEN_ROWS {
                    assert(self.cells[i]@ =~= blank_row());
                }
            }
            assert(self@.rows =~= after.rows);
        }
    }

    /// Clears every complete visible row: the rows above a cleared row fall,
    /// in their order, and blank rows enter below the hidden rows. The scan
    /// runs from the bottom row up and looks at a row again after it has taken
    /// one out there.
    pub fn update_rows(&mut self)
        ensures
            final(self)@ == old(self)@.swept(),
            final(self)@.hidden() == old(self)@.hidden(),
            final(self)@.full_rows() == 0,
            final(self)@.filled_count() + PLAYFIELD_WIDTH * old(self)@.full_rows() == old(
                self,
            )@.filled_count(),
    {
        let mut r: usize = PLAYFIELD_HEIGHT - 1;
        while r >= HIDDEN_ROWS
            invariant
                HIDDEN_ROWS - 1 <= r < PLAYFIELD_HEIGHT,
                self@.swept() == old(self)@.swept(),
                forall|i: int| r < i < PLAYFIELD_HEIGHT ==> !row_complete(self@.rows[i]),
            decreases self@.full_rows(), r,
        {
            if self.is_row_complete(r) {
                proof {
                    self@.lemma_compacted_then_swept(r as int);
                }
                self.shift_down_from_row(r);
            } else {
                r -= 1;
            }
        }
        proof {
            self@.lemma_swept_when_no_row_full();
            old(self)@.lemma_sweep_clears_full_rows();
        }
    }
}

} // verus!
