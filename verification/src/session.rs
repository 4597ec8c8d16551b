use vstd::prelude::*;
use crate::geometry::{points, BlockType, Point, Position, HIDDEN_ROWS, PLAYFIELD_WIDTH};
use crate::piece::{Block, Piece};
use crate::playfield::{blank_row, Grid, Playfield};
use crate::projection::project;

verus! {

/// Number of ticks in a row for which a piece must be grounded before it
/// locks. With a tick every 100 ms this is a lock delay of half a second.
pub const LOCK_DELAY_TICKS: u8 = 5;

/// A piece as the engine spawns one: of one of the seven kinds, at the spawn
/// layout of its kind.
pub open spec fn spawned(next: Piece) -> bool {
    next.kind.is_piece() && next == Piece::spawn(next.kind)
}

/// A spawned piece is well formed.
pub proof fn lemma_spawned_wf(next: Piece)
    requires
        spawned(next),
    ensures
        next.wf(),
{
}

/// The model of a game session.
pub struct Session {
    /// What is locked on the playfield.
    pub grid: Grid,
    /// The falling piece.
    pub active: Piece,
    /// Where the falling piece would land, once it has been worked out.
    pub projection: Option<Seq<Point>>,
    pub game_over: bool,
    pub paused: bool,
    /// Ticks for which the falling piece has been grounded.
    pub lock_timer: nat,
}

impl Session {
    /// What holds of every session that the engine made and moved: the grid
    /// has its dimensions, the falling piece is one of the seven kinds and
    /// lies on the grid, the lock delay has not run out, and while the game
    /// goes on a projection that is there shows where the piece would land.
    pub open spec fn wf(self) -> bool {
        &&& self.grid.wf()
        &&& self.active.wf()
        &&& self.lock_timer < LOCK_DELAY_TICKS
        &&& !self.game_over ==> (self.projection matches Some(cells) ==> cells == self.active.landing(
            self.grid,
        ).cells)
    }

    /// Neither paused nor over.
    pub open spec fn running(self) -> bool {
        !self.game_over && !self.paused
    }

    /// A session at its start: a blank grid, `active` falling, no projection
    /// yet.
    pub open spec fn new_with(active: Piece) -> Session {
        Session {
            grid: Grid::blank(),
            active,
            projection: None,
            game_over: false,
            paused: false,
            lock_timer: 0,
        }
    }

    /// The session with its projection worked out anew.
    pub open spec fn get_projection(self) -> Session {
        Session { projection: Some(self.active.landing(self.grid).cells), ..self }
    }

    /// The session with `active` falling and the projection worked out for
    /// it.
    pub open spec fn with_active(self, active: Piece) -> Session {
        Session { active, ..self }.get_projection()
    }

    /// The session after a rotation command.
    pub open spec fn rotate_block(self) -> Session {
        if self.running() {
            self.with_active(self.active.rotate(self.grid))
        } else {
            self
        }
    }

    /// The session after a command to move left.
    pub open spec fn move_block_left(self) -> Session {
        if self.running() {
            self.with_active(self.active.move_left(self.grid))
        } else {
            self
        }
    }

    /// The session after a command to move right.
    pub open spec fn move_block_right(self) -> Session {
        if self.running() {
            self.with_active(self.active.move_right(self.grid))
        } else {
            self
        }
    }

    /// The session after a soft drop: the piece one row further down, unless
    /// it is grounded.
    pub open spec fn descend_block(self) -> Session {
        if self.running() && !self.active.grounded(self.grid) {
            self.with_active(self.active.descend())
        } else {
            self
        }
    }

    /// The session after a pause command.
    pub open spec fn toggle_pause(self) -> Session {
        if self.game_over {
            self
        } else {
            Session { paused: !self.paused, ..self }
        }
    }

    /// The session after the falling piece has been written to the grid and
    /// the complete rows cleared. The game is over when the piece reached
    /// into the hidden rows.
    pub open spec fn settled(self) -> Session {
        Session {
            grid: self.active.written_to(self.grid).swept(),
            game_over: self.game_over || self.active.intrudes_hidden(),
            ..self
        }
    }

    /// The session after the falling piece has locked: settled, and unless
    /// the piece reached into the hidden rows, `next` falls in its place.
    pub open spec fn place_block(self, next: Piece) -> Session {
        if self.active.intrudes_hidden() {
            self.settled()
        } else {
            self.settled().with_active(next)
        }
    }

    /// The session after a hard drop: the piece locks where it lands.
    pub open spec fn full_descend_block(self, next: Piece) -> Session {
        if self.running() {
            Session { active: self.active.landing(self.grid), ..self }.place_block(next)
        } else {
            self
        }
    }

    /// The lock delay runs out with this tick.
    pub open spec fn lock_due(self) -> bool {
        self.running() && self.active.grounded(self.grid) && self.lock_timer + 1 >= LOCK_DELAY_TICKS
    }

    /// The session after a tick of the lock timer: a grounded piece is one
    /// tick nearer to its lock, and locks when the delay has run out; a piece
    /// that can fall starts the delay anew.
    pub open spec fn tick(self, next: Piece) -> Session {
        if !self.running() {
            self
        } else if !self.active.grounded(self.grid) {
            Session { lock_timer: 0, ..self }
        } else if self.lock_timer + 1 < LOCK_DELAY_TICKS {
            Session { lock_timer: self.lock_timer + 1, ..self }
        } else {
            Session { lock_timer: 0, ..self }.place_block(next)
        }
    }
}

/// A game session: the playfield, the falling piece, where it would land,
/// and the state of the game.
#[derive(Debug)]
pub struct GlobalState {
    pub playfield: Playfield,
    pub active_block: Block,
    pub projection_blocks: Option<[Position; 4]>,
    pub game_over: bool,
    pub game_paused: bool,
    /// Ticks for which the falling piece has been grounded.
    pub lock_timer: u8,
}

impl View for GlobalState {
    type V = Session;

    open spec fn view(&self) -> Session {
        Session {
            grid: self.playfield@,
            active: self.active_block@,
            projection: match self.projection_blocks {
                Some(cells) => Some(points(cells)),
                None => None,
            },
            game_over: self.game_over,
            paused: self.game_paused,
            lock_timer: self.lock_timer as nat,
        }
    }
}

impl Clone for GlobalState {
    fn clone(&self) -> (copy: GlobalState)
        ensures
            copy == *self,
    {
        GlobalState {
            playfield: self.playfield,
            active_block: self.active_block,
            projection_blocks: self.projection_blocks,
            game_over: self.game_over,
            game_paused: self.game_paused,
            lock_timer: self.lock_timer,
        }
    }
}

impl GlobalState {
    /// The session's model is well formed.
    pub open spec fn wf(&self) -> bool {
        self@.wf()
    }

    /// A session at its start, with `active_block` falling.
    pub fn new_with(active_block: Block) -> (state: GlobalState)
        ensures
            state@ == Session::new_with(active_block@),
            active_block@.wf() ==> state.wf(),
    {
        let state = GlobalState {
            playfield: Playfield::new(),
            active_block,
            projection_blocks: None,
            game_over: false,
            game_paused: false,
            lock_timer: 0,
        };
        proof {
            state.playfield.lemma_view_wf();
        }
        state
    }

    /// A session at its start, with a piece of a random kind falling.
    pub fn new() -> (state: GlobalState)
        ensures
            exists|next: Piece| #[trigger] spawned(next) && state@ == Session::new_with(next),
            state.wf(),
    {
        let first = Block::get_random();
        assert(spawned(first@));
        GlobalState::new_with(first)
    }

    /// Whether the session is well formed. Every session that `new` or
    /// `new_with` made from a well-formed piece is, and stays so under every
    /// operation; one that was put together by hand may not be.
    #[verifier::loop_isolation(false)]
    pub fn is_valid(&self) -> (valid: bool)
        ensures
            valid == self.wf(),
    {
        proof {
            self.playfield.lemma_view_wf();
        }
        if self.active_block.block_type == BlockType::Empty || !self.active_block.in_bounds()
            || self.lock_timer >= LOCK_DELAY_TICKS {
            return false;
        }
        if self.game_over {
            return true;
        }
        match self.projection_blocks {
            None => true,
            Some(cells) => {
                let landing = project(&self.playfield, &self.active_block);
                let mut i: usize = 0;
                while i < 4
                    invariant
                        i <= 4,
                        forall|j: int| 0 <= j < i ==> cells[j] == landing[j],
                    decreases 4 - i,
                {
                    if cells[i] != landing[i] {
                        proof {
                            let at = i as int;
                            assert(cells[at].0 != landing[at].0 || cells[at].1 != landing[at].1);
                            assert(points(cells)[at] == cells[at]@);
                            assert(points(landing)[at] == landing[at]@);
                            assert(points(cells)[at] != points(landing)[at]);
                        }
                        return false;
                    }
                    i += 1;
                }
                assert(points(cells) =~= points(landing));
                true
            },
        }
    }

    /// Whether the falling piece cannot fall any further: a cell of it is in
    /// the bottom row, or the cell directly below one of its cells is not
    /// free.
    pub fn check_collision(&self) -> (hit: bool)
        ensures
            hit == self@.active.grounded(self@.grid),
    {
        self.active_block.check_collision(&self.playfield)
    }

    /// Whether a cell of the falling piece lies in the hidden rows.
    pub fn check_game_over(&self) -> (over: bool)
        ensures
            over == self@.active.intrudes_hidden(),
    {
        let mut i: usize = 0;
        while i < 4
            invariant
                i <= 4,
                forall|j: int| 0 <= j < i ==> (#[trigger] self@.active.cells[j]).row >= HIDDEN_ROWS,
            decreases 4 - i,
        {
            if self.active_block.blocks[i].0 < HIDDEN_ROWS as i8 {
                assert(self@.active.cells[i as int].row < HIDDEN_ROWS);
                return true;
            }
            i += 1;
        }
        false
    }

    /// Works out anew where the falling piece would land.
    pub fn get_projection(&mut self)
        ensures
            final(self)@ == old(self)@.get_projection(),
            old(self).wf() ==> final(self).wf(),
    {
        self.projection_blocks = Some(project(&self.playfield, &self.active_block));
    }

    /// Turns the falling piece a quarter clockwise if it has room to, and
    /// works out the projection anew. Nothing happens while the game is
    /// paused or over.
    pub fn rotate_block(&mut self)
        ensures
            final(self)@ == old(self)@.rotate_block(),
            old(self).wf() ==> final(self).wf(),
    {
        if self.game_over || self.game_paused {
            return ;
        }
        self.active_block = self.active_block.rotate(&self.playfield);
        self.get_projection();
        proof {
            if old(self).wf() {
                old(self)@.lemma_rotate_block_wf();
            }
        }
    }

    /// Moves the falling piece one column to the left if it can, and works
    /// out the projection anew. Nothing happens while the game is paused or
    /// over.
    pub fn move_block_left(&mut self)
        ensures
            final(self)@ == old(self)@.move_block_left(),
            old(self).wf() ==> final(self).wf(),
    {
        if self.game_over || self.game_paused {
            return ;
        }
        self.active_block = self.active_block.move_left(&self.playfield);
        self.get_projection();
        proof {
            if old(self).wf() {
                old(self)@.lemma_move_block_wf();
            }
        }
    }

    /// Moves the falling piece one column to the right if it can, and works
    /// out the projection anew. Nothing happens while the game is paused or
    /// over.
    pub fn move_block_right(&mut self)
        ensures
            final(self)@ == old(self)@.move_block_right(),
            old(self).wf() ==> final(self).wf(),
    {
        if self.game_over || self.game_paused {
            return ;
        }
        self.active_block = self.active_block.move_right(&self.playfield);
        self.get_projection();
        proof {
            if old(self).wf() {
                old(self)@.lemma_move_block_wf();
            }
        }
    }

    /// Soft drop: moves the falling piece down by one row unless it is
    /// grounded, and works out the projection anew. A grounded piece stays
    /// where it is; the lock delay, not this call, locks it. Nothing happens
    /// while the game is paused or over.
    pub fn descend_block(&mut self)
        ensures
            final(self)@ == old(self)@.descend_block(),
            old(self).wf() ==> final(self).wf(),
    {
        if self.game_over || self.game_paused {
            return ;
        }
        if self.check_collision() {
            return ;
        }
        self.active_block = self.active_block.descend(&self.playfield);
        self.get_projection();
        proof {
            if old(self).wf() {
                old(self)@.lemma_descend_block_wf();
            }
        }
    }

    /// Pauses a running game and resumes a paused one. Nothing happens once
    /// the game is over.
    pub fn toggle_pause(&mut self)
        ensures
            final(self)@ == old(self)@.toggle_pause(),
            old(self).wf() ==> final(self).wf(),
    {
        if self.game_over {
            return ;
        }
        self.game_paused = !self.game_paused;
    }

    /// Writes the falling piece to the playfield, clears the complete rows,
    /// and ends the game if the piece reached into the hidden rows. Says
    /// whether the game goes on with a new piece.
    fn settle(&mut self) -> (goes_on: bool)
        ensures
            final(self)@ == old(self)@.settled(),
            goes_on == !old(self)@.active.intrudes_hidden(),
    {
        let kind = self.active_block.block_type;
        let mut i: usize = 0;
        proof {
            self.playfield.lemma_view_wf();
            self@.active.lemma_written_within_step(self@.grid, 0);
        }
        while i < 4
            invariant
                i <= 4,
                kind == old(self).active_block.block_type,
                self.active_block == old(self).active_block,
                self.projection_blocks == old(self).projection_blocks,
                self.game_over == old(self).game_over,
                self.game_paused == old(self).game_paused,
                self.lock_timer == old(self).lock_timer,
                self.playfield@ == old(self)@.active.written_within(old(self)@.grid, i as int),
            decreases 4 - i,
        {
            let at = self.active_block.blocks[i];
            proof {
                old(self).playfield.lemma_view_wf();
                old(self)@.active.lemma_written_within_step(old(self)@.grid, i as int);
                assert(old(self)@.active.cells[i as int] == at@);
            }
            if at.in_bounds() {
                self.playfield.write_cell(at.0 as usize, at.1 as usize, kind);
            }
            i += 1;
        }
        self.playfield.update_rows();
        if self.check_game_over() {
            self.game_over = true;
            false
        } else {
            true
        }
    }

    /// Locks the falling piece: writes it to the playfield, clears the
    /// complete rows, and either ends the game, if the piece reached into the
    /// hidden rows, or lets `next` fall in its place.
    pub fn place_block_with(&mut self, next: Block)
        ensures
            final(self)@ == old(self)@.place_block(next@),
            old(self).wf() && next@.wf() ==> final(self).wf(),
    {
        if self.settle() {
            self.active_block = next;
            self.get_projection();
        }
        proof {
            if old(self).wf() && next@.wf() {
                old(self)@.lemma_place_block_wf(next@);
            }
        }
    }

    /// Locks the falling piece: writes it to the playfield, clears the
    /// complete rows, and either ends the game, if the piece reached into the
    /// hidden rows, or lets a piece of a random kind fall in its place.
    pub fn place_block(&mut self)
        ensures
            exists|next: Piece| #[trigger] spawned(next) && final(self)@ == old(self)@.place_block(next),
            old(self).wf() ==> final(self).wf(),
    {
        if self.settle() {
            let next = Block::get_random();
            self.active_block = next;
            self.get_projection();
            proof {
                assert(spawned(next@));
                if old(self).wf() {
                    old(self)@.lemma_place_block_wf(next@);
                }
            }
        } else {
            proof {
                let any = Piece::spawn(BlockType::Smashboy);
                assert(spawned(any));
                if old(self).wf() {
                    old(self)@.lemma_place_block_wf(any);
                }
            }
        }
    }

    /// Hard drop: the falling piece drops to where it lands and locks there
    /// at once, with `next` to fall after it. Nothing happens while the game
    /// is paused or over.
    pub fn full_descend_block_with(&mut self, next: Block)
        ensures
            final(self)@ == old(self)@.full_descend_block(next@),
            old(self).wf() && next@.wf() ==> final(self).wf(),
    {
        if self.game_over || self.game_paused {
            return ;
        }
        self.drop_to_rest();
        self.place_block_with(next);
    }

    /// Hard drop: the falling piece drops to where it lands and locks there
    /// at once, with a piece of a random kind to fall after it. Nothing
    /// happens while the game is paused or over.
    pub fn full_descend_block(&mut self)
        ensures
            exists|next: Piece| #[trigger]
                spawned(next) && final(self)@ == old(self)@.full_descend_block(next),
            old(self).wf() ==> final(self).wf(),
    {
        if self.game_over || self.game_paused {
            assert(spawned(Piece::spawn(BlockType::Smashboy)));
            return ;
        }
        self.drop_to_rest();
        self.place_block();
    }

    /// Moves the falling piece straight down to where it lands.
    fn drop_to_rest(&mut self)
        ensures
            final(self)@ == (Session {
                active: old(self)@.active.landing(old(self)@.grid),
                ..old(self)@
            }),
            old(self).wf() ==> final(self)@.active.wf(),
    {
        let cells = project(&self.playfield, &self.active_block);
        self.active_block = Block { block_type: self.active_block.block_type, blocks: cells };
        proof {
            old(self)@.active.lemma_landing_rests(old(self)@.grid);
            assert(self@.active.cells == old(self)@.active.landing(old(self)@.grid).cells);
        }
    }

    /// Counts this tick against the lock delay of a running game and says
    /// whether the falling piece must lock now: a piece that can fall starts
    /// the delay anew, a grounded piece comes one tick nearer to its lock, and
    /// the delay starts anew when it has run out.
    fn lock_due(&mut self) -> (due: bool)
        ensures
            due == old(self)@.lock_due(),
            final(self)@ == (Session {
                lock_timer: if !old(self)@.running() {
                    old(self)@.lock_timer
                } else if old(self)@.active.grounded(old(self)@.grid) && old(self)@.lock_timer + 1
                    < LOCK_DELAY_TICKS {
                    old(self)@.lock_timer + 1
                } else {
                    0
                },
                ..old(self)@
            }),
    {
        if self.game_over || self.game_paused {
            return false;
        }
        if !self.check_collision() {
            self.lock_timer = 0;
            return false;
        }
        if self.lock_timer < LOCK_DELAY_TICKS - 1 {
            self.lock_timer = self.lock_timer + 1;
            return false;
        }
        self.lock_timer = 0;
        true
    }

    /// One tick of the lock timer. While the falling piece is grounded the
    /// ticks are counted, and with the tick that completes the lock delay the
    /// piece locks, with `next` to fall after it. A piece that can fall
    /// starts the count anew. Nothing happens while the game is paused or
    /// over.
    pub fn tick_with(&mut self, next: Block)
        ensures
            final(self)@ == old(self)@.tick(next@),
            old(self).wf() && next@.wf() ==> final(self).wf(),
    {
        if self.lock_due() {
            self.place_block_with(next);
        }
        proof {
            if old(self).wf() && next@.wf() {
                old(self)@.lemma_tick_wf(next@);
            }
        }
    }

    /// One tick of the lock timer. While the falling piece is grounded the
    /// ticks are counted, and with the tick that completes the lock delay the
    /// piece locks, with a piece of a random kind to fall after it. A piece
    /// that can fall starts the count anew. Nothing happens while the game is
    /// paused or over.
    pub fn tick(&mut self)
        ensures
            exists|next: Piece| #[trigger] spawned(next) && final(self)@ == old(self)@.tick(next),
            old(self).wf() ==> final(self).wf(),
    {
        if self.lock_due() {
            let ghost before = self@;
            self.place_block();
            proof {
                let next = choose|next: Piece| #[trigger]
                    spawned(next) && self@ == before.place_block(next);
                if old(self).wf() {
                    old(self)@.lemma_tick_wf(next);
                }
            }
        } else {
            proof {
                let any = Piece::spawn(BlockType::Smashboy);
                assert(spawned(any));
                if old(self).wf() {
                    old(self)@.lemma_tick_wf(any);
                }
            }
        }
    }
}

impl Session {
    /// The game ends with a lock, and only with the lock of a piece that
    /// reaches into the hidden rows: a lock ends it exactly when the piece
    /// does so, a tick exactly when it locks such a piece, a hard drop exactly
    /// when the piece lands so, and no other command ends it.
    pub proof fn lemma_game_over_on_lock(self, next: Piece)
        requires
            !self.game_over,
        ensures
            self.place_block(next).game_over <==> self.active.intrudes_hidden(),
            self.tick(next).game_over <==> self.lock_due() && self.active.intrudes_hidden(),
            self.full_descend_block(next).game_over <==> !self.paused && self.active.landing(
                self.grid,
            ).intrudes_hidden(),
            !self.rotate_block().game_over,
            !self.move_block_left().game_over,
            !self.move_block_right().game_over,
            !self.descend_block().game_over,
            !self.toggle_pause().game_over,
    {
    }

    /// While the game is paused or over, ticks and the commands that move
    /// the piece leave the session as it is.
    pub proof fn lemma_still_unless_running(self, next: Piece)
        requires
            !self.running(),
        ensures
            self.tick(next) == self,
            self.descend_block() == self,
            self.rotate_block() == self,
            self.move_block_left() == self,
            self.move_block_right() == self,
            self.full_descend_block(next) == self,
    {
    }

    /// A pause command pauses a running game and resumes a paused one, and
    /// two of them leave the session as it was. A game that is over takes no
    /// pause command.
    pub proof fn lemma_pause_and_resume(self)
        ensures
            !self.game_over ==> self.toggle_pause().paused == !self.paused,
            self.game_over ==> self.toggle_pause() == self,
            self.toggle_pause().toggle_pause() == self,
    {
    }

    /// A lock that does not end the game writes to the visible rows only and
    /// leaves the hidden rows as they were.
    pub proof fn lemma_lock_spares_hidden_rows(self, next: Piece)
        requires
            self.grid.wf(),
            !self.active.intrudes_hidden(),
        ensures
            self.place_block(next).grid.hidden() == self.grid.hidden(),
    {
        let written = self.active.written_to(self.grid);
        assert forall|r: int| 0 <= r < HIDDEN_ROWS implies written.rows[r] == self.grid.rows[r] by {
            assert forall|c: int| 0 <= c < self.grid.rows[r].len() implies !self.active.covers(
                Point { row: r, col: c },
            ) by {
                if self.active.covers(Point { row: r, col: c }) {
                    let i = choose|i: int|
                        0 <= i < self.active.cells.len() && (#[trigger] self.active.cells[i])
                            == (Point { row: r, col: c });
                    assert(self.active.cells[i].row < HIDDEN_ROWS);
                }
            }
            assert(written.rows[r] =~= self.grid.rows[r]);
        }
        assert(written.hidden() =~= self.grid.hidden());
        written.lemma_sweep_clears_full_rows();
    }

    /// While the game goes on, the hidden rows stay blank: no command, tick
    /// or lock that leaves the game going leaves a block in them.
    pub proof fn lemma_hidden_rows_stay_blank(self, next: Piece)
        requires
            self.grid.wf(),
            self.grid.hidden_blank(),
        ensures
            !self.place_block(next).game_over ==> self.place_block(next).grid.hidden_blank(),
            !self.tick(next).game_over ==> self.tick(next).grid.hidden_blank(),
            !self.full_descend_block(next).game_over ==> self.full_descend_block(
                next,
            ).grid.hidden_blank(),
            self.rotate_block().grid == self.grid,
            self.move_block_left().grid == self.grid,
            self.move_block_right().grid == self.grid,
            self.descend_block().grid == self.grid,
            self.toggle_pause().grid == self.grid,
    {
        if !self.place_block(next).game_over {
            self.lemma_lock_spares_hidden_rows(next);
            Self::lemma_hidden_blank_by_rows(self.grid, self.place_block(next).grid);
        }
        if !self.tick(next).game_over && self.lock_due() {
            let due = Session { lock_timer: 0, ..self };
            due.lemma_lock_spares_hidden_rows(next);
            Self::lemma_hidden_blank_by_rows(self.grid, self.tick(next).grid);
        }
        if !self.full_descend_block(next).game_over && self.running() {
            let landed = Session { active: self.active.landing(self.grid), ..self };
            landed.lemma_lock_spares_hidden_rows(next);
            Self::lemma_hidden_blank_by_rows(self.grid, self.full_descend_block(next).grid);
        }
    }

    /// Grids with the same hidden rows have blank hidden rows together.
    proof fn lemma_hidden_blank_by_rows(before: Grid, after: Grid)
        requires
            before.rows.len() >= HIDDEN_ROWS,
            after.rows.len() >= HIDDEN_ROWS,
            before.hidden() == after.hidden(),
            before.hidden_blank(),
        ensures
            after.hidden_blank(),
    {
        assert forall|r: int| 0 <= r < HIDDEN_ROWS implies after.rows[r]
            == blank_row() by {
            assert(after.hidden()[r] == after.rows[r]);
            assert(before.hidden()[r] == before.rows[r]);
        }
    }

    /// On a grid with blank hidden rows, a spawned piece covers free cells
    /// only.
    pub proof fn lemma_spawn_on_free_cells(grid: Grid, next: Piece)
        requires
            grid.wf(),
            grid.hidden_blank(),
            spawned(next),
        ensures
            forall|i: int| 0 <= i < next.cells.len() ==> grid.is_free(#[trigger] next.cells[i]),
    {
        assert forall|i: int| 0 <= i < next.cells.len() implies grid.is_free(
            #[trigger] next.cells[i],
        ) by {
            let at = next.cells[i];
            assert(0 <= at.row < HIDDEN_ROWS && 0 <= at.col < PLAYFIELD_WIDTH);
            assert(grid.rows[at.row] == blank_row());
        }
    }

    /// A rotation command keeps a well-formed session well formed.
    pub proof fn lemma_rotate_block_wf(self)
        requires
            self.wf(),
        ensures
            self.rotate_block().wf(),
    {
        if self.running() && self.active.can_rotate(self.grid) {
            let turned = self.active.turned();
            assert forall|i: int| 0 <= i < 4 implies (#[trigger] turned.cells[i]).in_bounds() by {
                assert(self.active.turn_clear(self.grid, i));
            }
        }
    }

    /// A command to move left or right keeps a well-formed session well
    /// formed.
    pub proof fn lemma_move_block_wf(self)
        requires
            self.wf(),
        ensures
            self.move_block_left().wf(),
            self.move_block_right().wf(),
    {
        if self.running() && self.active.can_move_left(self.grid) {
            let moved = self.active.shifted(0, -1);
            assert forall|i: int| 0 <= i < 4 implies (#[trigger] moved.cells[i]).in_bounds() by {
                assert(self.active.left_clear(self.grid, i));
                assert(self.active.cells[i].in_bounds());
            }
        }
        if self.running() && self.active.can_move_right(self.grid) {
            let moved = self.active.shifted(0, 1);
            assert forall|i: int| 0 <= i < 4 implies (#[trigger] moved.cells[i]).in_bounds() by {
                assert(self.active.right_clear(self.grid, i));
                assert(self.active.cells[i].in_bounds());
            }
        }
    }

    /// A soft drop keeps a well-formed session well formed.
    pub proof fn lemma_descend_block_wf(self)
        requires
            self.wf(),
        ensures
            self.descend_block().wf(),
    {
        if self.running() && !self.active.grounded(self.grid) {
            self.active.lemma_free_fall(self.grid);
        }
    }

    /// A lock keeps a well-formed session well formed.
    pub proof fn lemma_place_block_wf(self, next: Piece)
        requires
            self.wf(),
            next.wf(),
        ensures
            self.place_block(next).wf(),
    {
        let written = self.active.written_to(self.grid);
        assert(written.wf());
        written.lemma_sweep_clears_full_rows();
    }

    /// A hard drop keeps a well-formed session well formed.
    pub proof fn lemma_full_descend_block_wf(self, next: Piece)
        requires
            self.wf(),
            next.wf(),
        ensures
            self.full_descend_block(next).wf(),
    {
        if self.running() {
            self.active.lemma_landing_rests(self.grid);
            let landed = Session { active: self.active.landing(self.grid), ..self };
            assert(landed.active.landing(self.grid) == landed.active);
            landed.lemma_place_block_wf(next);
        }
    }

    /// A tick keeps a well-formed session well formed.
    pub proof fn lemma_tick_wf(self, next: Piece)
        requires
            self.wf(),
            next.wf(),
        ensures
            self.tick(next).wf(),
    {
        if self.lock_due() {
            Session { lock_timer: 0, ..self }.lemma_place_block_wf(next);
        }
    }
}

} // verus!
