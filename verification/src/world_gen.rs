//! The world generators that can be chosen, and the placing of blocks by the generation of
//! structures.

use vstd::prelude::*;
use crate::block_types::{BlockTypeId, BlockTypeTable};
use crate::chunk_blocks::{get_spec, set_spec, Block, ChunkBlocks};
use crate::coords::Point3i;

verus! {

/// The world generators that can be chosen.
#[derive(Debug, Clone, Copy, PartialEq, Eq, Structural)]
pub enum WhichWorldGenerator {
    Default,
    Flat,
    Empty,
    Lines01,
    Volumes01,
    BallsSameSize,
    BallsDifferentSizes,
    LinksXRaw,
    LinksX,
    Links01,
    LinksGround,
    LinksCaves,
    Links02,
    LinksFlat,
    SkyIslands,
    Volumes02,
    Volumes03,
    Height01,
    Plane01,
    WierdTerrain01,
    Plane02,
    WierdTerrain02,
    Height02,
    HeightBiomes,
    HeightBiomesVolume,
    Height03,
    StructuresPoc,
    StructuresLinksPoc,
    StructuresTrees,
    StructuresSpikes,
    Lines02,
    Lines03,
    StructuresLinksSmooth,
    StructuresEnginePoc,
    StructuresGeneratedBlocks,
}

/// The default world generator, of the given seed.
#[derive(Debug, Clone, Copy, PartialEq, Eq, Structural)]
pub struct DefaultWorldGenerator {
    pub seed: i32,
}

/// The type of a structure, by its index.
#[derive(Debug, Clone, Copy, PartialEq, Eq, Structural)]
pub struct StructureTypeId {
    pub index: usize,
}

/// Where a structure of which type is to be generated: the block it generates from, and its
/// type.
#[derive(Debug, Clone, Copy, PartialEq, Eq, Structural)]
pub struct StructureOrigin {
    pub coords: Point3i,
    pub type_id: StructureTypeId,
}

/// How the generation of a structure places a block: which block type, and whether only in
/// place of air.
#[derive(Debug, Clone, Copy, PartialEq, Eq, Structural)]
pub struct BlockPlacing {
    pub block_type_to_place: BlockTypeId,
    pub only_place_on_air: bool,
}

/// Whether the block at `coords` is to be replaced when placing by `block_placing`: always,
/// unless the placing is only on air, in which case only where there is a block of type air.
pub open spec fn shall_place_block(
    chunk_blocks: ChunkBlocks,
    table: Seq<crate::block_types::BlockType>,
    block_placing: BlockPlacing,
    coords: Point3i,
) -> bool {
    !block_placing.only_place_on_air || (get_spec(chunk_blocks@, chunk_blocks.span(), coords) matches Some(b)
        && table[b.0 as int] is Air)
}

/// A placing that is only on air never replaces a block of another type than air (so no such
/// block is lost), and one that is not only on air always places its block.
pub proof fn law_placing_only_on_air_loses_no_block(
    chunk_blocks: ChunkBlocks,
    table: Seq<crate::block_types::BlockType>,
    block_placing: BlockPlacing,
    coords: Point3i,
)
    ensures
        block_placing.only_place_on_air && (get_spec(chunk_blocks@, chunk_blocks.span(), coords) matches Some(b)
            && !(table[b.0 as int] is Air)) ==> !shall_place_block(chunk_blocks, table, block_placing, coords),
        !block_placing.only_place_on_air ==> shall_place_block(chunk_blocks, table, block_placing, coords),
{
}

/// Places the block of `block_placing` at `coords` in the chunk (if the chunk contains
/// `coords`), unless the placing is only on air and there is no air there.
pub fn place_block(
    chunk_blocks: &mut ChunkBlocks,
    block_type_table: &BlockTypeTable,
    block_placing: &BlockPlacing,
    coords: Point3i,
)
    requires
        old(chunk_blocks).wf(),
        get_spec(old(chunk_blocks)@, old(chunk_blocks).span(), coords) matches Some(b) ==> b.0
            < block_type_table@.len(),
    ensures
        final(chunk_blocks).wf(),
        final(chunk_blocks).span() == old(chunk_blocks).span(),
        final(chunk_blocks)@ == if shall_place_block(
            *old(chunk_blocks),
            block_type_table@,
            *block_placing,
            coords,
        ) {
            set_spec(
                old(chunk_blocks)@,
                old(chunk_blocks).allocated(),
                old(chunk_blocks).span(),
                coords,
                (block_placing.block_type_to_place, None),
            )
        } else {
            old(chunk_blocks)@
        },
        old(chunk_blocks).air_is_plain() ==> final(chunk_blocks).air_is_plain(),
{
    let shall_place_block = !block_placing.only_place_on_air || match chunk_blocks.get(coords) {
        Some(block) => match block_type_table.get(block.type_id) {
            Some(block_type) => block_type.is_air(),
            None => false,
        },
        None => false,
    };
    if shall_place_block {
        chunk_blocks.set(coords, Block::from(block_placing.block_type_to_place));
    }
}

} // verus!
