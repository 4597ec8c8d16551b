use rustris::{get_smash_start, get_teewee_start, project, Block, BlockType, Playfield, Position};

#[test]
fn projection_on_an_empty_playfield() {
    let playfield = Playfield::new();
    let block = Block { block_type: BlockType::Smashboy, blocks: get_smash_start() };
    assert_eq!(
        project(&playfield, &block),
        [Position(23, 4), Position(23, 5), Position(22, 4), Position(22, 5)]
    );
}

#[test]
fn projection_stops_on_a_block() {
    let mut playfield = Playfield::new();
    playfield.write_cell(15, 5, BlockType::Hero);
    let block = Block { block_type: BlockType::Teewee, blocks: get_teewee_start() };
    assert_eq!(
        project(&playfield, &block),
        [Position(14, 4), Position(14, 3), Position(13, 4), Position(14, 5)]
    );
}

#[test]
fn projection_stops_on_the_first_cell_that_rests() {
    let mut playfield = Playfield::new();
    // the stem of the piece hangs over a gap; its arm meets a block first
    playfield.write_cell(20, 3, BlockType::Hero);
    let block = Block {
        block_type: BlockType::Teewee,
        blocks: [Position(6, 4), Position(5, 4), Position(6, 3), Position(7, 4)],
    };
    assert_eq!(
        project(&playfield, &block),
        [Position(19, 4), Position(18, 4), Position(19, 3), Position(20, 4)]
    );
}

#[test]
fn projection_of_a_resting_piece_is_the_piece() {
    let mut playfield = Playfield::new();
    playfield.write_cell(12, 4, BlockType::Hero);
    let block = Block {
        block_type: BlockType::Smashboy,
        blocks: [Position(11, 4), Position(11, 5), Position(10, 4), Position(10, 5)],
    };
    assert_eq!(project(&playfield, &block), block.blocks);
    let on_floor = Block {
        block_type: BlockType::Smashboy,
        blocks: [Position(23, 4), Position(23, 5), Position(22, 4), Position(22, 5)],
    };
    assert_eq!(project(&Playfield::new(), &on_floor), on_floor.blocks);
}

#[test]
fn projection_keeps_the_columns() {
    let playfield = Playfield::new();
    for roll in 1..=7 {
        let block = Block::from_roll(roll);
        let cells = project(&playfield, &block);
        let drop = cells[0].0 - block.blocks[0].0;
        assert!(drop >= 0);
        for i in 0..4 {
            assert_eq!(cells[i].1, block.blocks[i].1);
            assert_eq!(cells[i].0 - block.blocks[i].0, drop);
        }
        let landed = Block { block_type: block.block_type, blocks: cells };
        assert!(landed.check_collision(&playfield));
        assert!(landed.in_bounds());
    }
}

#[test]
fn projection_is_total_off_the_playfield() {
    let playfield = Playfield::new();
    let block = Block {
        block_type: BlockType::Hero,
        blocks: [Position(5, 40), Position(6, 40), Position(4, 40), Position(3, 40)],
    };
    assert_eq!(project(&playfield, &block), block.blocks);
}
