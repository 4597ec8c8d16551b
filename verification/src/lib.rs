//! The rules of a falling-block puzzle game: the playfield, the falling piece
//! and its moves, the clearing of complete rows, the projection of where the
//! piece will land, and the session that ties them together.
//!
//! Every executable function states what it does over a mathematical model
//! (`Point`, `Piece`, `Grid`, `Session`), and Verus proves that it does so and
//! that it cannot panic.

pub mod blocks;
pub mod geometry;
pub mod input;
pub mod piece;
pub mod playfield;
pub mod projection;
pub mod session;

pub use crate::blocks::{
    get_blue_start, get_cleveland_start, get_color, get_hero_start, get_orange_start,
    get_rhode_start, get_smash_start, get_teewee_start,
};
pub use crate::geometry::{BlockType, Position, HIDDEN_ROWS, PLAYFIELD_HEIGHT, PLAYFIELD_WIDTH};
pub use crate::input::{GravityTimer, Key};
pub use crate::piece::Block;
pub use crate::playfield::Playfield;
pub use crate::projection::project;
pub use crate::session::{GlobalState, LOCK_DELAY_TICKS};
