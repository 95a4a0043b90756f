use qwy3::block_types::{BlockType, BlockTypeTable};
use qwy3::chunk_blocks::{
    Block, BlockData, BlockView, ChunkBlocks, ChunkBlocksBeingGenerated, ChunkCullingInfo,
    FaceCullingInfo,
};
use qwy3::chunk_meshing::{meshes_of_faces, DataForChunkMeshing, FaceToMesh, OpaquenessLayerAroundChunk};
use qwy3::coords::bit_cube::{BitCube3, BitCube3Coords};
use qwy3::coords::OrientedAxis;
use qwy3::coords::span::{iter_3d_rect_inf_sup_excluded, ChunkCoordsSpan, ChunkDimensions};
use qwy3::coords::Point3i;
use qwy3::world_gen::{place_block, BlockPlacing};

fn p(x: i32, y: i32, z: i32) -> Point3i {
    Point3i::new(x, y, z)
}

#[test]
fn indexing_of_the_funky_layer_data_structure() {
    let cd = ChunkDimensions::from(18);
    let chunk_coords_span = ChunkCoordsSpan { cd, chunk_coords: p(2, -3, 0) };
    let layer = OpaquenessLayerAroundChunk::new(chunk_coords_span);

    let layer_size = OpaquenessLayerAroundChunk::data_size(cd);
    let mut indices = vec![];

    // We iterate over all the coords in the layer and in the layer hole.
    let chunk_inf = chunk_coords_span.block_coords_inf();
    let chunk_sup = chunk_coords_span.block_coords_sup_excluded();
    let inf = p(chunk_inf.x - 1, chunk_inf.y - 1, chunk_inf.z - 1);
    let sup_excluded = p(chunk_sup.x + 1, chunk_sup.y + 1, chunk_sup.z + 1);
    for coords in iter_3d_rect_inf_sup_excluded(inf, sup_excluded) {
        let index_opt = layer.coords_to_index_in_data(coords);
        if let Some(index) = index_opt {
            // Indices must be unique.
            assert!(!indices.contains(&index));
            indices.push(index);
        } else {
            // No index means being in the hole at the center of the layer.
            assert!(chunk_coords_span.contains(coords));
        }
    }

    // The indices must cover all the indices from 0 to the layer size.
    for expected_index in 0..layer_size {
        assert!(indices.contains(&expected_index));
    }
}

#[test]
fn layer_size_formula() {
    assert_eq!(OpaquenessLayerAroundChunk::data_size(ChunkDimensions::from(0)), 8);
    assert_eq!(OpaquenessLayerAroundChunk::data_size(ChunkDimensions::from(1)), 26);
    assert_eq!(OpaquenessLayerAroundChunk::data_size(ChunkDimensions::from(18)), 6 * 324 + 12 * 18 + 8);
}

#[test]
fn layer_get_after_set() {
    let span = ChunkCoordsSpan { cd: ChunkDimensions::from(3), chunk_coords: p(0, 0, 0) };
    let mut layer = OpaquenessLayerAroundChunk::new(span);
    assert_eq!(layer.get(p(-1, 0, 0)), Some(false));
    assert_eq!(layer.get(p(1, 1, 1)), None);
    assert_eq!(layer.get(p(5, 0, 0)), None);
    layer.set(p(-1, 0, 0), true);
    layer.set(p(3, 3, 3), true);
    assert_eq!(layer.get(p(-1, 0, 0)), Some(true));
    assert_eq!(layer.get(p(3, 3, 3)), Some(true));
    assert_eq!(layer.get(p(-1, 1, 0)), Some(false));
    assert_eq!(layer.coords_to_index_in_data_unchecked(p(-1, -1, -1)), Some(0));
    assert_eq!(layer.coords_to_index_in_data_unchecked(p(3, 3, 3)), Some(49));
}

fn text_block(text: &str) -> Block {
    Block { type_id: 6, data: Some(BlockData::Text(text.to_string())) }
}

fn span4() -> ChunkCoordsSpan {
    ChunkCoordsSpan { cd: ChunkDimensions::from(4), chunk_coords: p(0, 0, 0) }
}

#[test]
fn chunk_blocks_start_full_of_air() {
    let blocks = ChunkBlocks::new_empty(span4());
    assert!(blocks.contains_only_air());
    assert!(!blocks.contains_non_air());
    assert!(!blocks.was_modified_since_generation());
    let view = blocks.get(p(1, 2, 3)).unwrap();
    assert_eq!(view.type_id, BlockTypeTable::AIR_ID);
    assert!(view.data.is_none());
    assert!(blocks.get(p(4, 0, 0)).is_none());
}

#[test]
fn chunk_blocks_get_after_set() {
    let mut blocks = ChunkBlocks::new_empty(span4());
    blocks.set(p(1, 1, 1), Block::from(2));
    blocks.set(p(0, 0, 0), text_block("hello"));
    assert!(blocks.was_modified_since_generation());
    assert!(blocks.contains_non_air());
    assert_eq!(blocks.get(p(1, 1, 1)).unwrap().as_owned_block(), Block::from(2));
    assert_eq!(blocks.get(p(0, 0, 0)).unwrap().as_owned_block(), text_block("hello"));
    assert_eq!(blocks.get(p(2, 1, 1)).unwrap().as_owned_block(), Block::new_air());
    blocks.set(p(1, 1, 1), Block::new_air());
    assert_eq!(blocks.get(p(1, 1, 1)).unwrap().as_owned_block(), Block::new_air());
    assert_eq!(blocks.get(p(0, 0, 0)).unwrap().as_owned_block(), text_block("hello"));
}

#[test]
fn chunk_blocks_setting_outside_does_nothing() {
    let mut blocks = ChunkBlocks::new_empty(span4());
    blocks.set(p(-1, 0, 0), Block::from(1));
    assert!(!blocks.was_modified_since_generation());
    assert!(blocks.contains_only_air());
    blocks.set(p(0, 0, 0), Block::new_air());
    assert!(!blocks.was_modified_since_generation());
}

#[test]
fn chunk_blocks_many_different_blocks_widen_the_keys() {
    let mut blocks = ChunkBlocks::new_empty(span4());
    let mut id: u32 = 1;
    for coords in span4().iter_coords() {
        blocks.set(coords, Block::from(id));
        id += 1;
    }
    let mut expected: u32 = 1;
    for coords in span4().iter_coords() {
        assert_eq!(blocks.get(coords).unwrap().type_id, expected);
        expected += 1;
    }
    // Putting back air everywhere frees the palette entries, whose keys are reused.
    for coords in span4().iter_coords() {
        blocks.set(coords, Block::new_air());
    }
    assert!(blocks.contains_only_air());
    blocks.set(p(3, 3, 3), Block::from(900));
    assert_eq!(blocks.get(p(3, 3, 3)).unwrap().type_id, 900);
    assert_eq!(blocks.get(p(3, 3, 2)).unwrap().type_id, 0);
}

#[test]
fn contains_only_air_counts_the_tracked_air_entry() {
    let air_with_text = Block { type_id: BlockTypeTable::AIR_ID, data: Some(BlockData::Text("x".to_string())) };
    let mut blocks = ChunkBlocks::new_empty(span4());
    blocks.set(p(0, 0, 0), Block::from(3));
    assert!(blocks.contains_non_air());
    blocks.set(p(0, 0, 0), Block::new_air());
    assert!(blocks.contains_only_air());
    // Air that carries data gets an entry of its own, which becomes the tracked air entry.
    blocks.set(p(1, 0, 0), air_with_text);
    assert!(!blocks.contains_only_air());
    // Once that entry is gone, no air entry is tracked anymore, though every block is air.
    blocks.set(p(1, 0, 0), Block::new_air());
    assert_eq!(blocks.get(p(1, 0, 0)).unwrap().as_owned_block(), Block::new_air());
    assert!(!blocks.contains_only_air());
}

#[test]
fn block_views_and_copies() {
    let block = text_block("sign");
    let view = block.as_view();
    assert_eq!(view.type_id, 6);
    assert_eq!(view.as_owned_block(), block);
    assert!(block.same_as(&text_block("sign")));
    assert!(!block.same_as(&text_block("other")));
    assert!(!block.same_as(&Block::from(6)));
    assert_eq!(block.duplicate(), block);
    let air_view = BlockView::new_air();
    assert_eq!(air_view.as_owned_block(), Block::new_air());
}

#[test]
fn generation_is_not_a_modification() {
    let mut generated = ChunkBlocksBeingGenerated::new_empty(span4());
    generated.set_id(p(0, 0, 0), 1);
    generated.set(p(1, 0, 0), text_block("x"));
    assert_eq!(generated.get(p(0, 0, 0)).unwrap().type_id, 1);
    assert_eq!(generated.coords_span().cd.edge, 4);
    let blocks = generated.finish_generation();
    assert!(!blocks.was_modified_since_generation());
    assert_eq!(blocks.get(p(1, 0, 0)).unwrap().as_owned_block(), text_block("x"));
}

#[test]
fn culling_info_of_faces() {
    let table = BlockTypeTable::new();
    let empty = ChunkBlocks::new_empty(span4());
    let info = ChunkCullingInfo::compute_from_blocks(&empty, &table);
    assert!(info.faces.iter().all(|f| *f == FaceCullingInfo::AllAir));
    assert!(ChunkCullingInfo::new_all_air().faces.iter().all(|f| *f == FaceCullingInfo::AllAir));

    let mut blocks = ChunkBlocks::new_empty(span4());
    // The bottom layer is ground (opaque), and one block of the top layer is grass blades.
    for x in 0..4 {
        for y in 0..4 {
            blocks.set(p(x, y, 0), Block::from(table.ground_id()));
        }
    }
    blocks.set(p(1, 1, 3), Block::from(table.kinda_grass_blades_id()));
    let info = ChunkCullingInfo::compute_from_blocks(&blocks, &table);
    // Faces in the order X+, X-, Y+, Y-, Z+, Z-.
    assert_eq!(info.faces[0], FaceCullingInfo::SomeAirSomeOpaque);
    assert_eq!(info.faces[4], FaceCullingInfo::SomeAirSomeOpaque);
    assert_eq!(info.faces[5], FaceCullingInfo::AllOpaque);
}

#[test]
fn block_type_table() {
    let table = BlockTypeTable::new();
    assert!(table.get(table.air_id()).unwrap().is_air());
    assert!(table.get(table.ground_id()).unwrap().is_opaque());
    assert!(matches!(table.get(table.kinda_grass_blades_id()), Some(BlockType::XShaped { .. })));
    assert!(matches!(table.get(table.text_id()), Some(BlockType::Text)));
    assert_eq!(table.kinda_grass_id(), 2);
    assert_eq!(table.kinda_wood_id(), 4);
    assert_eq!(table.kinda_leaf_id(), 5);
    assert_eq!(table.generated_test_id(0), 7);
    let generated = table.get(table.generated_test_id(33)).unwrap();
    match generated {
        BlockType::Solid { texture_coords_on_atlas } => {
            assert_eq!((texture_coords_on_atlas.x, texture_coords_on_atlas.y), (16, 80));
        },
        _ => panic!("generated block types are solid"),
    }
    assert!(table.get(7 + 28 * 32).is_none());
    assert!(table.get(7 + 28 * 32 - 1).is_some());
    assert_eq!(table.get(table.text_id()).unwrap().texture_coords_on_atlas(), None);
}

#[test]
fn placing_blocks_only_on_air() {
    let table = BlockTypeTable::new();
    let mut blocks = ChunkBlocks::new_empty(span4());
    blocks.set(p(0, 0, 0), Block::from(table.ground_id()));
    let leaves = BlockPlacing { block_type_to_place: table.kinda_leaf_id(), only_place_on_air: true };
    place_block(&mut blocks, &table, &leaves, p(0, 0, 0));
    place_block(&mut blocks, &table, &leaves, p(0, 0, 1));
    assert_eq!(blocks.get(p(0, 0, 0)).unwrap().type_id, table.ground_id());
    assert_eq!(blocks.get(p(0, 0, 1)).unwrap().type_id, table.kinda_leaf_id());
    let wood = BlockPlacing { block_type_to_place: table.kinda_wood_id(), only_place_on_air: false };
    place_block(&mut blocks, &table, &wood, p(0, 0, 0));
    assert_eq!(blocks.get(p(0, 0, 0)).unwrap().type_id, table.kinda_wood_id());
}

fn mesh_of(chunk_blocks: ChunkBlocks, culling_layer: OpaquenessLayerAroundChunk) -> Vec<FaceToMesh> {
    let span = chunk_blocks.coords_span();
    let data = DataForChunkMeshing {
        chunk_blocks,
        opaqueness_layer_for_face_culling: culling_layer,
        opaqueness_layer_for_ambiant_occlusion: OpaquenessLayerAroundChunk::new(span),
        block_type_table: BlockTypeTable::new(),
    };
    data.generate_mesh()
}

fn face_summary(face: &FaceToMesh) -> (Point3i, Option<OrientedAxis>) {
    match face {
        FaceToMesh::BlockFace { coords, direction, .. } => (*coords, Some(*direction)),
        FaceToMesh::XShapedBlock { coords, .. } => (*coords, None),
    }
}

fn cube_of(face: &FaceToMesh) -> BitCube3 {
    match face {
        FaceToMesh::BlockFace { opacity_bit_cube_3_for_ambiant_occlusion, .. } => {
            *opacity_bit_cube_3_for_ambiant_occlusion
        },
        FaceToMesh::XShapedBlock { opacity_bit_cube_3_for_ambiant_occlusion, .. } => {
            *opacity_bit_cube_3_for_ambiant_occlusion
        },
    }
}

#[test]
fn meshing_culls_the_faces_between_opaque_blocks() {
    let span = ChunkCoordsSpan { cd: ChunkDimensions::from(2), chunk_coords: p(0, 0, 0) };
    let table = BlockTypeTable::new();
    let mut chunk_blocks = ChunkBlocks::new_empty(span);
    assert_eq!(mesh_of(ChunkBlocks::new_empty(span), OpaquenessLayerAroundChunk::new(span)).len(), 0);
    chunk_blocks.set(p(0, 0, 0), Block::from(table.ground_id()));
    chunk_blocks.set(p(1, 0, 0), Block::from(table.ground_id()));
    let faces = mesh_of(chunk_blocks, OpaquenessLayerAroundChunk::new(span));
    let directions = OrientedAxis::all_the_six_possible_directions();
    let (x_plus, x_minus) = (directions[0], directions[1]);
    let mut expected = vec![];
    for direction in &directions {
        if *direction != x_plus {
            expected.push((p(0, 0, 0), Some(*direction)));
        }
    }
    for direction in &directions {
        if *direction != x_minus {
            expected.push((p(1, 0, 0), Some(*direction)));
        }
    }
    assert_eq!(faces.iter().map(face_summary).collect::<Vec<_>>(), expected);
    // The ambient occlusion sees the block itself and its opaque neighbour, and only them.
    let cube = cube_of(&faces[0]);
    assert!(cube.get(BitCube3Coords::from_point(p(0, 0, 0))));
    assert!(cube.get(BitCube3Coords::from_point(p(1, 0, 0))));
    assert!(!cube.get(BitCube3Coords::from_point(p(-1, 0, 0))));
    assert!(!cube.get(BitCube3Coords::from_point(p(1, 1, 0))));
}

#[test]
fn meshing_reads_the_layer_and_x_shaped_blocks() {
    let span = ChunkCoordsSpan { cd: ChunkDimensions::from(2), chunk_coords: p(0, 0, 0) };
    let table = BlockTypeTable::new();
    let mut chunk_blocks = ChunkBlocks::new_empty(span);
    chunk_blocks.set(p(0, 0, 0), Block::from(table.ground_id()));
    chunk_blocks.set(p(1, 1, 1), Block::from(table.kinda_grass_blades_id()));
    let mut layer = OpaquenessLayerAroundChunk::new(span);
    layer.set(p(-1, 0, 0), true);
    layer.set(p(0, 0, -1), true);
    let faces = mesh_of(chunk_blocks, layer);
    let directions = OrientedAxis::all_the_six_possible_directions();
    let summaries = faces.iter().map(face_summary).collect::<Vec<_>>();
    assert_eq!(
        summaries,
        vec![
            (p(0, 0, 0), Some(directions[0])),
            (p(0, 0, 0), Some(directions[2])),
            (p(0, 0, 0), Some(directions[3])),
            (p(0, 0, 0), Some(directions[4])),
            (p(1, 1, 1), None),
        ]
    );
}

#[test]
fn meshing_vertex_counts() {
    let span = ChunkCoordsSpan { cd: ChunkDimensions::from(2), chunk_coords: p(0, 0, 0) };
    let table = BlockTypeTable::new();
    let mut chunk_blocks = ChunkBlocks::new_empty(span);
    chunk_blocks.set(p(0, 0, 0), Block::from(table.ground_id()));
    chunk_blocks.set(p(1, 0, 0), Block::from(table.ground_id()));
    chunk_blocks.set(p(1, 1, 1), Block::from(table.kinda_grass_blades_id()));
    let faces = mesh_of(chunk_blocks, OpaquenessLayerAroundChunk::new(span));
    assert_eq!(faces.len(), 11);
    let meshes = meshes_of_faces(&faces);
    assert_eq!(meshes.len(), 10 + 4);
    let vertex_count: usize = meshes.iter().map(|m| m.vertices.len()).sum();
    assert_eq!(vertex_count, 6 * 10 + 24);
    // The half-faces of the X-shaped block stand at the block's coordinates.
    assert!(meshes[10..].iter().all(|m| m.block == p(1, 1, 1)));
}
