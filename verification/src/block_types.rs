//! The types of blocks, and the table that gives each of them an id.

use vstd::prelude::*;
use vstd::arithmetic::div_mod::lemma_fundamental_div_mod;

verus! {

/// Index in the table of block types.
pub type BlockTypeId = u32;

/// The width and height (in pixels) of the texture atlas.
pub const ATLAS_DIMS: (usize, usize) = (512, 512);

/// A point of the texture atlas (in pixels).
#[derive(Debug, Clone, Copy, PartialEq, Eq, Structural)]
pub struct Point2i {
    pub x: i32,
    pub y: i32,
}

#[derive(Debug, Clone, Copy, PartialEq, Eq, Structural)]
pub enum BlockType {
    Air,
    Solid { texture_coords_on_atlas: Point2i },
    XShaped { texture_coords_on_atlas: Point2i },
    Text,
}

impl BlockType {
    pub fn is_opaque(&self) -> (r: bool)
        ensures
            r == (*self is Solid),
    {
        match self {
            BlockType::Solid { .. } => true,
            _ => false,
        }
    }

    pub fn is_air(&self) -> (r: bool)
        ensures
            r == (*self is Air),
    {
        match self {
            BlockType::Air => true,
            _ => false,
        }
    }

    pub fn texture_coords_on_atlas(&self) -> (r: Option<Point2i>)
        ensures
            r == (match *self {
                BlockType::Solid { texture_coords_on_atlas } => Some(texture_coords_on_atlas),
                BlockType::XShaped { texture_coords_on_atlas } => Some(texture_coords_on_atlas),
                BlockType::Air => None,
                BlockType::Text => None,
            }),
    {
        match self {
            BlockType::Solid { texture_coords_on_atlas } => Some(*texture_coords_on_atlas),
            BlockType::XShaped { texture_coords_on_atlas } => Some(*texture_coords_on_atlas),
            BlockType::Air => None,
            BlockType::Text => None,
        }
    }
}

/// The block types that have their own name, by id: air, ground, kinda grass, kinda grass
/// blades, kinda wood, kinda leaf and text.
pub open spec fn named_block_types() -> Seq<BlockType> {
    seq![
        BlockType::Air,
        BlockType::Solid { texture_coords_on_atlas: Point2i { x: 0, y: 0 } },
        BlockType::Solid { texture_coords_on_atlas: Point2i { x: 16, y: 0 } },
        BlockType::XShaped { texture_coords_on_atlas: Point2i { x: 32, y: 0 } },
        BlockType::Solid { texture_coords_on_atlas: Point2i { x: 48, y: 0 } },
        BlockType::Solid { texture_coords_on_atlas: Point2i { x: 64, y: 0 } },
        BlockType::Text,
    ]
}

/// The number of 16x16 tiles along each axis of the atlas.
pub open spec fn atlas_tiles() -> int {
    32int
}

/// The generated block type of index `i` (after the named ones): a solid block textured by the
/// tile of the atlas at row `4 + i / 32`, column `i % 32`.
pub open spec fn generated_block_type(i: int) -> BlockType {
    BlockType::Solid {
        texture_coords_on_atlas: Point2i {
            x: ((i % atlas_tiles()) * 16) as i32,
            y: ((4 + i / atlas_tiles()) * 16) as i32,
        },
    }
}

/// Each generated block type is a solid block with a tile of its own in the atlas: its tile lies
/// in the atlas, below the four rows of tiles that the named block types and others use, and no
/// two generated block types share a tile.
pub proof fn law_generated_block_types_have_their_own_tile(i: int, j: int)
    requires
        0 <= i < (atlas_tiles() - 4) * atlas_tiles(),
        0 <= j < (atlas_tiles() - 4) * atlas_tiles(),
    ensures
        generated_block_type(i) matches BlockType::Solid { texture_coords_on_atlas: t } && 0 <= t.x
            <= 512 - 16 && 4 * 16 <= t.y <= 512 - 16 && t.x % 16 == 0 && t.y % 16 == 0,
        i != j ==> generated_block_type(i) != generated_block_type(j),
{
    lemma_fundamental_div_mod(i, 32);
    lemma_fundamental_div_mod(j, 32);
    assert(0 <= i / 32 < 28 && 0 <= i % 32 < 32) by (nonlinear_arith)
        requires
            0 <= i < 28 * 32,
            i == 32 * (i / 32) + i % 32,
            0 <= i % 32 < 32,
    ;
    assert(0 <= j / 32 < 28 && 0 <= j % 32 < 32) by (nonlinear_arith)
        requires
            0 <= j < 28 * 32,
            j == 32 * (j / 32) + j % 32,
            0 <= j % 32 < 32,
    ;
}

/// All the block types of the table, by id.
pub open spec fn all_block_types() -> Seq<BlockType> {
    named_block_types() + Seq::new(
        ((atlas_tiles() - 4) * atlas_tiles()) as nat,
        |i: int| generated_block_type(i),
    )
}

pub struct BlockTypeTable {
    block_types: Vec<BlockType>,
}

impl BlockTypeTable {
    pub const AIR_ID: BlockTypeId = 0;

    /// The id of the ground block type.
    pub const GROUND_ID: BlockTypeId = 1;

    /// The id of the text block type.
    pub const TEXT_ID: BlockTypeId = 6;

    /// The block types of the table, by id.
    pub closed spec fn view(&self) -> Seq<BlockType> {
        self.block_types@
    }

    pub fn new() -> (r: BlockTypeTable)
        ensures
            r@ == all_block_types(),
    {
        let mut block_types = vec![
            BlockType::Air,
            BlockType::Solid { texture_coords_on_atlas: Point2i { x: 0, y: 0 } },
            BlockType::Solid { texture_coords_on_atlas: Point2i { x: 16, y: 0 } },
            BlockType::XShaped { texture_coords_on_atlas: Point2i { x: 32, y: 0 } },
            BlockType::Solid { texture_coords_on_atlas: Point2i { x: 48, y: 0 } },
            BlockType::Solid { texture_coords_on_atlas: Point2i { x: 64, y: 0 } },
            BlockType::Text,
        ];
        assert(block_types@ == named_block_types());
        let tiles_x: usize = ATLAS_DIMS.0 / 16;
        let tiles_y: usize = ATLAS_DIMS.1 / 16;
        let mut y: usize = 4;
        while y < tiles_y
            invariant
                tiles_x == 32,
                tiles_y == 32,
                4 <= y <= 32,
                block_types@ == named_block_types() + Seq::new(
                    ((y - 4) * 32) as nat,
                    |i: int| generated_block_type(i),
                ),
            decreases 32 - y,
        {
            let mut x: usize = 0;
            while x < tiles_x
                invariant
                    tiles_x == 32,
                    tiles_y == 32,
                    4 <= y < 32,
                    x <= 32,
                    block_types@ == named_block_types() + Seq::new(
                        ((y - 4) * 32 + x) as nat,
                        |i: int| generated_block_type(i),
                    ),
                decreases 32 - x,
            {
                let t = BlockType::Solid {
                    texture_coords_on_atlas: Point2i { x: (x * 16) as i32, y: (y * 16) as i32 },
                };
                proof {
                    let i = (y - 4) * 32 + x;
                    assert(i % 32 == x && i / 32 == y - 4) by (nonlinear_arith)
                        requires
                            i == (y - 4) * 32 + x,
                            x < 32,
                            4 <= y,
                    ;
                    assert(t == generated_block_type(i));
                }
                block_types.push(t);
                proof {
                    assert(block_types@ =~= named_block_types() + Seq::new(
                        ((y - 4) * 32 + x + 1) as nat,
                        |i: int| generated_block_type(i),
                    ));
                }
                x = x + 1;
            }
            y = y + 1;
        }
        BlockTypeTable { block_types }
    }

    pub fn get(&self, id: BlockTypeId) -> (r: Option<&BlockType>)
        ensures
            r == (if id < self@.len() {
                Some(&self@[id as int])
            } else {
                None
            }),
    {
        let i = id as usize;
        if i < self.block_types.len() {
            Some(&self.block_types[i])
        } else {
            None
        }
    }

    pub fn air_id(&self) -> (r: BlockTypeId)
        ensures
            r == 0,
    {
        BlockTypeTable::AIR_ID
    }

    pub fn ground_id(&self) -> (r: BlockTypeId)
        ensures
            r == 1,
    {
        1
    }

    pub fn kinda_grass_id(&self) -> (r: BlockTypeId)
        ensures
            r == 2,
    {
        2
    }

    pub fn kinda_grass_blades_id(&self) -> (r: BlockTypeId)
        ensures
            r == 3,
    {
        3
    }

    pub fn kinda_wood_id(&self) -> (r: BlockTypeId)
        ensures
            r == 4,
    {
        4
    }

    pub fn kinda_leaf_id(&self) -> (r: BlockTypeId)
        ensures
            r == 5,
    {
        5
    }

    pub fn text_id(&self) -> (r: BlockTypeId)
        ensures
            r == 6,
    {
        6
    }

    /// The id of the generated block type of the given index (they follow the named ones).
    pub fn generated_test_id(&self, index: usize) -> (r: BlockTypeId)
        requires
            index + 7 <= u32::MAX,
        ensures
            r == index + 7,
    {
        (index + 7) as BlockTypeId
    }
}

} // verus!
