use rustris::{
    get_hero_start, get_smash_start, get_teewee_start, Block, BlockType, Playfield, Position,
};

fn hero_in_column(col: i8) -> Block {
    Block {
        block_type: BlockType::Hero,
        blocks: [
            Position(10, col),
            Position(11, col),
            Position(9, col),
            Position(8, col),
        ],
    }
}

fn spawn_layout_of(kind: BlockType) -> [Position; 4] {
    match kind {
        BlockType::OrangeRicky => rustris::get_orange_start(),
        BlockType::BlueRicky => rustris::get_blue_start(),
        BlockType::Hero => rustris::get_hero_start(),
        BlockType::Teewee => rustris::get_teewee_start(),
        BlockType::ClevelandZ => rustris::get_cleveland_start(),
        BlockType::RhodeIslandZ => rustris::get_rhode_start(),
        BlockType::Smashboy => rustris::get_smash_start(),
        BlockType::Empty => panic!("no piece is of the empty kind"),
    }
}

#[test]
fn from_roll_selects_each_kind() {
    let kinds = [
        BlockType::OrangeRicky,
        BlockType::BlueRicky,
        BlockType::Hero,
        BlockType::Teewee,
        BlockType::ClevelandZ,
        BlockType::RhodeIslandZ,
        BlockType::Smashboy,
    ];
    for (i, kind) in kinds.iter().enumerate() {
        let block = Block::from_roll(i as i32 + 1);
        assert_eq!(block.block_type, *kind);
        assert_eq!(block.blocks, spawn_layout_of(*kind));
    }
}

#[test]
fn random_piece_is_a_spawned_piece() {
    for _ in 0..200 {
        let block = Block::get_random();
        assert_ne!(block.block_type, BlockType::Empty);
        assert_eq!(block.blocks, spawn_layout_of(block.block_type));
        assert!(block.in_bounds());
    }
}

#[test]
fn random_pieces_are_not_all_of_one_kind() {
    let first = Block::get_random().block_type;
    let mut other_seen = false;
    for _ in 0..2000 {
        if Block::get_random().block_type != first {
            other_seen = true;
        }
    }
    assert!(other_seen);
}

#[test]
fn random_pieces_reach_both_ends_of_the_range() {
    let mut orange = false;
    let mut smash = false;
    for _ in 0..5000 {
        match Block::get_random().block_type {
            BlockType::OrangeRicky => orange = true,
            BlockType::Smashboy => smash = true,
            _ => {}
        }
    }
    assert!(orange && smash);
}

#[test]
fn rotate_teewee_clockwise() {
    let playfield = Playfield::new();
    let block = Block { block_type: BlockType::Teewee, blocks: get_teewee_start() };
    let turned = block.rotate(&playfield);
    assert_eq!(turned.block_type, BlockType::Teewee);
    assert_eq!(
        turned.blocks,
        [Position(3, 4), Position(2, 4), Position(3, 5), Position(4, 4)]
    );
}

#[test]
fn rotate_hero_from_spawn() {
    let playfield = Playfield::new();
    let block = Block { block_type: BlockType::Hero, blocks: get_hero_start() };
    let turned = block.rotate(&playfield);
    assert_eq!(
        turned.blocks,
        [Position(2, 5), Position(2, 4), Position(2, 6), Position(2, 7)]
    );
}

#[test]
fn rotate_smashboy_turns_about_its_first_cell() {
    let playfield = Playfield::new();
    let block = Block { block_type: BlockType::Smashboy, blocks: get_smash_start() };
    let turned = block.rotate(&playfield);
    assert_eq!(
        turned.blocks,
        [Position(3, 4), Position(4, 4), Position(3, 5), Position(4, 5)]
    );
}

#[test]
fn rotate_keeps_the_pivot() {
    let playfield = Playfield::new();
    for roll in 1..=7 {
        let block = Block::from_roll(roll);
        let turned = block.rotate(&playfield);
        assert_eq!(turned.blocks[0], block.blocks[0]);
    }
}

#[test]
fn four_rotations_restore_the_piece() {
    let playfield = Playfield::new();
    for roll in 1..=7 {
        let mut start = Block::from_roll(roll);
        for cell in start.blocks.iter_mut() {
            cell.0 += 8;
        }
        let mut block = start;
        for turn in 0..4 {
            let next = block.rotate(&playfield);
            assert_ne!(next, block, "turn {} of roll {}", turn, roll);
            block = next;
        }
        assert_eq!(block, start);
    }
}

#[test]
fn rotate_rejected_at_the_wall() {
    let playfield = Playfield::new();
    let block = hero_in_column(0);
    assert_eq!(block.rotate(&playfield), block);
}

#[test]
fn rotate_rejected_above_the_top() {
    let playfield = Playfield::new();
    let block = Block {
        block_type: BlockType::Hero,
        blocks: [Position(0, 3), Position(0, 4), Position(0, 2), Position(0, 1)],
    };
    // the cells to the left of the pivot would go above the top row
    assert_eq!(block.rotate(&playfield), block);
}

#[test]
fn rotate_rejected_by_a_block() {
    let mut playfield = Playfield::new();
    let block = Block {
        block_type: BlockType::Teewee,
        blocks: [Position(13, 4), Position(13, 3), Position(12, 4), Position(13, 5)],
    };
    assert_ne!(block.rotate(&playfield), block);
    playfield.write_cell(14, 4, BlockType::Hero);
    assert_eq!(block.rotate(&playfield), block);
}

#[test]
fn rotate_is_total_on_far_positions() {
    let playfield = Playfield::new();
    let block = Block {
        block_type: BlockType::Hero,
        blocks: [
            Position(-128, 127),
            Position(127, -128),
            Position(-128, -128),
            Position(127, 127),
        ],
    };
    assert_eq!(block.rotate(&playfield), block);
}

#[test]
fn descend_moves_every_cell_down() {
    let playfield = Playfield::new();
    let block = Block { block_type: BlockType::Smashboy, blocks: get_smash_start() };
    let lower = block.descend(&playfield);
    assert_eq!(lower.block_type, BlockType::Smashboy);
    assert_eq!(
        lower.blocks,
        [Position(4, 4), Position(4, 5), Position(3, 4), Position(3, 5)]
    );
}

#[test]
fn descend_rejected_at_the_floor() {
    let playfield = Playfield::new();
    let block = Block {
        block_type: BlockType::Smashboy,
        blocks: [Position(23, 4), Position(23, 5), Position(22, 4), Position(22, 5)],
    };
    assert_eq!(block.descend(&playfield), block);
    let above = Block {
        block_type: BlockType::Smashboy,
        blocks: [Position(22, 4), Position(22, 5), Position(21, 4), Position(21, 5)],
    };
    assert_eq!(above.descend(&playfield), block);
}

#[test]
fn descend_does_not_look_at_blocks() {
    let mut playfield = Playfield::new();
    playfield.write_cell(12, 3, BlockType::Teewee);
    let block = hero_in_column(3);
    let lower = block.descend(&playfield);
    assert_eq!(
        lower.blocks,
        [Position(11, 3), Position(12, 3), Position(10, 3), Position(9, 3)]
    );
    assert!(block.check_collision(&playfield));
}

#[test]
fn descend_is_total_at_the_end_of_the_range() {
    let playfield = Playfield::new();
    let block = Block {
        block_type: BlockType::Hero,
        blocks: [Position(127, 0), Position(126, 0), Position(125, 0), Position(124, 0)],
    };
    assert_eq!(block.descend(&playfield), block);
}

#[test]
fn move_left_and_right_on_an_empty_playfield() {
    let playfield = Playfield::new();
    let block = Block { block_type: BlockType::Hero, blocks: get_hero_start() };
    let left = block.move_left(&playfield);
    assert_eq!(
        left.blocks,
        [Position(2, 4), Position(3, 4), Position(1, 4), Position(0, 4)]
    );
    let right = block.move_right(&playfield);
    assert_eq!(
        right.blocks,
        [Position(2, 6), Position(3, 6), Position(1, 6), Position(0, 6)]
    );
}

#[test]
fn left_then_right_restores_the_piece() {
    let playfield = Playfield::new();
    for roll in 1..=7 {
        let block = Block::from_roll(roll);
        let left = block.move_left(&playfield);
        assert_ne!(left, block);
        assert_eq!(left.move_right(&playfield), block);
        let right = block.move_right(&playfield);
        assert_ne!(right, block);
        assert_eq!(right.move_left(&playfield), block);
    }
}

#[test]
fn move_left_rejected_at_the_wall() {
    let playfield = Playfield::new();
    let block = hero_in_column(0);
    assert_eq!(block.move_left(&playfield), block);
}

#[test]
fn move_right_rejected_at_the_wall() {
    let playfield = Playfield::new();
    let block = hero_in_column(9);
    assert_eq!(block.move_right(&playfield), block);
}

#[test]
fn move_left_rejected_by_a_block_inside() {
    let mut playfield = Playfield::new();
    playfield.write_cell(10, 1, BlockType::Teewee);
    let block = hero_in_column(2);
    assert_eq!(block.move_left(&playfield), block);
}

#[test]
fn move_left_into_the_edge_column_ignores_blocks() {
    let mut playfield = Playfield::new();
    playfield.write_cell(10, 0, BlockType::Teewee);
    let block = hero_in_column(1);
    assert_eq!(block.move_left(&playfield), hero_in_column(0));
}

#[test]
fn move_right_rejected_by_a_block_inside() {
    let mut playfield = Playfield::new();
    playfield.write_cell(10, 8, BlockType::Teewee);
    let block = hero_in_column(7);
    assert_eq!(block.move_right(&playfield), block);
}

#[test]
fn move_right_into_the_edge_column_ignores_blocks() {
    let mut playfield = Playfield::new();
    playfield.write_cell(10, 9, BlockType::Teewee);
    let block = hero_in_column(8);
    assert_eq!(block.move_right(&playfield), hero_in_column(9));
}

#[test]
fn a_rejected_move_moves_no_cell() {
    let mut playfield = Playfield::new();
    // only the last cell of the piece is blocked
    playfield.write_cell(8, 4, BlockType::Teewee);
    let block = hero_in_column(5);
    assert_eq!(block.move_left(&playfield), block);
    playfield.write_cell(8, 6, BlockType::Teewee);
    assert_eq!(block.move_right(&playfield), block);
}

#[test]
fn moves_are_total_outside_the_playfield() {
    let playfield = Playfield::new();
    let block = Block {
        block_type: BlockType::Hero,
        blocks: [Position(-3, 5), Position(-2, 5), Position(-4, 5), Position(-5, 5)],
    };
    assert_eq!(block.move_left(&playfield), block);
    assert_eq!(block.move_right(&playfield), block);
    let far = Block {
        block_type: BlockType::Hero,
        blocks: [Position(5, 127), Position(5, -128), Position(5, 126), Position(5, -127)],
    };
    assert_eq!(far.move_left(&playfield), far);
    assert_eq!(far.move_right(&playfield), far);
}

#[test]
fn check_collision_on_the_floor() {
    let playfield = Playfield::new();
    let block = Block {
        block_type: BlockType::Smashboy,
        blocks: [Position(23, 4), Position(23, 5), Position(22, 4), Position(22, 5)],
    };
    assert!(block.check_collision(&playfield));
    let above = Block {
        block_type: BlockType::Smashboy,
        blocks: [Position(22, 4), Position(22, 5), Position(21, 4), Position(21, 5)],
    };
    assert!(!above.check_collision(&playfield));
}

#[test]
fn check_collision_on_a_block_below() {
    let mut playfield = Playfield::new();
    let block = hero_in_column(3);
    assert!(!block.check_collision(&playfield));
    playfield.write_cell(13, 3, BlockType::Teewee);
    assert!(!block.check_collision(&playfield));
    playfield.write_cell(12, 3, BlockType::Teewee);
    assert!(block.check_collision(&playfield));
}

#[test]
fn check_collision_ignores_blocks_beside() {
    let mut playfield = Playfield::new();
    playfield.write_cell(11, 2, BlockType::Teewee);
    playfield.write_cell(11, 4, BlockType::Teewee);
    playfield.write_cell(12, 4, BlockType::Teewee);
    assert!(!hero_in_column(3).check_collision(&playfield));
}

#[test]
fn block_in_bounds() {
    assert!(hero_in_column(0).in_bounds());
    assert!(hero_in_column(9).in_bounds());
    assert!(!hero_in_column(10).in_bounds());
    assert!(!hero_in_column(-1).in_bounds());
    let low = Block { block_type: BlockType::Smashboy, blocks: get_smash_start() };
    assert!(low.in_bounds());
}
