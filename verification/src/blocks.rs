use vstd::prelude::*;
use crate::geometry::{points, BlockType, Point, Position};

verus! {

/// The spawn layout of each piece kind: four cells in the hidden rows, the
/// pivot first, so that the piece slides into view from above. `Empty` has no
/// layout.
pub open spec fn spawn_layout(kind: BlockType) -> Seq<Point> {
    match kind {
        BlockType::Empty => Seq::empty(),
        BlockType::OrangeRicky => seq![
            Point { row: 3, col: 4 },
            Point { row: 3, col: 5 },
            Point { row: 2, col: 5 },
            Point { row: 3, col: 3 },
        ],
        BlockType::BlueRicky => seq![
            Point { row: 3, col: 4 },
            Point { row: 3, col: 3 },
            Point { row: 2, col: 3 },
            Point { row: 3, col: 5 },
        ],
        BlockType::Hero => seq![
            Point { row: 2, col: 5 },
            Point { row: 3, col: 5 },
            Point { row: 1, col: 5 },
            Point { row: 0, col: 5 },
        ],
        BlockType::Teewee => seq![
            Point { row: 3, col: 4 },
            Point { row: 3, col: 3 },
            Point { row: 2, col: 4 },
            Point { row: 3, col: 5 },
        ],
        BlockType::ClevelandZ => seq![
            Point { row: 3, col: 4 },
            Point { row: 3, col: 5 },
            Point { row: 2, col: 3 },
            Point { row: 2, col: 4 },
        ],
        BlockType::RhodeIslandZ => seq![
            Point { row: 3, col: 4 },
            Point { row: 3, col: 3 },
            Point { row: 2, col: 4 },
            Point { row: 2, col: 5 },
        ],
        BlockType::Smashboy => seq![
            Point { row: 3, col: 4 },
            Point { row: 3, col: 5 },
            Point { row: 2, col: 4 },
            Point { row: 2, col: 5 },
        ],
    }
}

pub fn get_orange_start() -> (cells: [Position; 4])
    ensures
        points(cells) == spawn_layout(BlockType::OrangeRicky),
{
    let cells = [Position(3, 4), Position(3, 5), Position(2, 5), Position(3, 3)];
    assert(points(cells) =~= spawn_layout(BlockType::OrangeRicky));
    cells
}

pub fn get_blue_start() -> (cells: [Position; 4])
    ensures
        points(cells) == spawn_layout(BlockType::BlueRicky),
{
    let cells = [Position(3, 4), Position(3, 3), Position(2, 3), Position(3, 5)];
    assert(points(cells) =~= spawn_layout(BlockType::BlueRicky));
    cells
}

pub fn get_hero_start() -> (cells: [Position; 4])
    ensures
        points(cells) == spawn_layout(BlockType::Hero),
{
    let cells = [Position(2, 5), Position(3, 5), Position(1, 5), Position(0, 5)];
    assert(points(cells) =~= spawn_layout(BlockType::Hero));
    cells
}

pub fn get_teewee_start() -> (cells: [Position; 4])
    ensures
        points(cells) == spawn_layout(BlockType::Teewee),
{
    let cells = [Position(3, 4), Position(3, 3), Position(2, 4), Position(3, 5)];
    assert(points(cells) =~= spawn_layout(BlockType::Teewee));
    cells
}

pub fn get_cleveland_start() -> (cells: [Position; 4])
    ensures
        points(cells) == spawn_layout(BlockType::ClevelandZ),
{
    let cells = [Position(3, 4), Position(3, 5), Position(2, 3), Position(2, 4)];
    assert(points(cells) =~= spawn_layout(BlockType::ClevelandZ));
    cells
}

pub fn get_rhode_start() -> (cells: [Position; 4])
    ensures
        points(cells) == spawn_layout(BlockType::RhodeIslandZ),
{
    let cells = [Position(3, 4), Position(3, 3), Position(2, 4), Position(2, 5)];
    assert(points(cells) =~= spawn_layout(BlockType::RhodeIslandZ));
    cells
}

pub fn get_smash_start() -> (cells: [Position; 4])
    ensures
        points(cells) == spawn_layout(BlockType::Smashboy),
{
    let cells = [Position(3, 4), Position(3, 5), Position(2, 4), Position(2, 5)];
    assert(points(cells) =~= spawn_layout(BlockType::Smashboy));
    cells
}

/// The display colour of each cell content, as the text of a CSS colour.
pub open spec fn color_of(kind: BlockType) -> Seq<char> {
    match kind {
        BlockType::Empty => "transparent"@,
        BlockType::Hero => "#1c82d6"@,
        BlockType::Teewee => "#951cd6"@,
        BlockType::Smashboy => "#fbff21"@,
        BlockType::BlueRicky => "#0915bd"@,
        BlockType::ClevelandZ => "#e62929"@,
        BlockType::OrangeRicky => "#e69a29"@,
        BlockType::RhodeIslandZ => "#1fd916"@,
    }
}

pub fn get_color(block_type: &BlockType) -> (color: String)
    ensures
        color@ == color_of(*block_type),
{
    match block_type {
        BlockType::Empty => "transparent".to_string(),
        BlockType::Hero => "#1c82d6".to_string(),
        BlockType::Teewee => "#951cd6".to_string(),
        BlockType::Smashboy => "#fbff21".to_string(),
        BlockType::BlueRicky => "#0915bd".to_string(),
        BlockType::ClevelandZ => "#e62929".to_string(),
        BlockType::OrangeRicky => "#e69a29".to_string(),
        BlockType::RhodeIslandZ => "#1fd916".to_string(),
    }
}

} // verus!
