use vstd::prelude::*;
use crate::geometry::{points, Position, PLAYFIELD_HEIGHT};
use crate::piece::Block;
use crate::playfield::Playfield;

verus! {

/// The cells that `block` would occupy if it fell straight down on
/// `playfield` until it could fall no further. A piece that already rests
/// projects onto itself.
pub fn project(playfield: &Playfield, block: &Block) -> (cells: [Position; 4])
    ensures
        points(cells) == block@.landing(playfield@).cells,
{
    let mut at = *block;
    while !at.check_collision(playfield)
        invariant
            at@.landing(playfield@) == block@.landing(playfield@),
        decreases PLAYFIELD_HEIGHT - at.blocks[0].0,
    {
        let ghost above = at;
        at = at.descend(playfield);
        proof {
            above@.lemma_free_fall(playfield@);
            assert(!above@.rests_at(playfield@, 0));
            assert(above@.cells[0] == above.blocks[0]@);
            assert(at@.cells[0] == at.blocks[0]@);
            assert(at@.cells[0] == above@.cells[0].below());
        }
    }
    at.blocks
}

} // verus!
