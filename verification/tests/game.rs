use qwy3::block_types::{BlockTypeTable, Point2i};
use qwy3::chunk_blocks::{Block, BlockData};
use qwy3::controls::Action;
use qwy3::coords::bit_cube::{BitCube3, BitCube3Coords};
use qwy3::coords::{OrientedAxis, OrientedFaceCoords, Point3i, Vector3i};
use qwy3::face_mesh::block_face_mesh;
use qwy3::game_controls::{
    apply_control_action, block_swapped_under_player, ControlEffect, PlayerControlState,
    PlayingMode, WhichCameraToUse,
};
use qwy3::saves::{chunk_save_data_from_file, chunk_save_file_contents, SaveDataError};

fn state(playing_mode: PlayingMode) -> PlayerControlState {
    PlayerControlState {
        playing_mode,
        walking_forward: false,
        walking_backward: false,
        walking_leftward: false,
        walking_rightward: false,
        enable_player_physics: true,
        enable_world_generation: true,
        selected_camera: WhichCameraToUse::FirstPerson,
        enable_display_phys_box: false,
        cursor_is_captured: false,
        enable_display_interface: true,
        typing_in_command_line: false,
        enable_display_not_surrounded_chunks_as_boxes: false,
        enable_interface_draw_debug_boxes: false,
        enable_fog: true,
        enable_fullscreen: false,
        enable_display_chunks_with_entities_as_boxes: false,
        player_held_block: None,
    }
}

fn p(x: i32, y: i32, z: i32) -> Point3i {
    Point3i::new(x, y, z)
}

#[test]
fn controls_walk_toggle_and_cycle_views() {
    let mut s = state(PlayingMode::Play);
    apply_control_action(&mut s, Action::WalkForward, true, None, None);
    assert!(s.walking_forward);
    apply_control_action(&mut s, Action::WalkForward, false, None, None);
    assert!(!s.walking_forward);
    // Toggling physics is only allowed in the free mode.
    apply_control_action(&mut s, Action::TogglePhysics, true, None, None);
    assert!(s.enable_player_physics);
    let mut free = state(PlayingMode::Free);
    apply_control_action(&mut free, Action::TogglePhysics, true, None, None);
    assert!(!free.enable_player_physics);
    // Releasing a toggle does nothing.
    apply_control_action(&mut s, Action::ToggleFog, false, None, None);
    assert!(s.enable_fog);
    assert!(matches!(
        apply_control_action(&mut s, Action::ToggleFog, true, None, None),
        ControlEffect::FogEnabled(false)
    ));
    for expected in [
        WhichCameraToUse::ThirdPersonNear,
        WhichCameraToUse::ThirdPersonFar,
        WhichCameraToUse::ThirdPersonVeryFar,
        WhichCameraToUse::ThirdPersonTooFar,
        WhichCameraToUse::FirstPerson,
    ] {
        apply_control_action(&mut s, Action::CycleFirstAndThirdPersonViews, true, None, None);
        assert_eq!(s.selected_camera, expected);
    }
    apply_control_action(&mut s, Action::ToggleSunView, true, None, None);
    assert_eq!(s.selected_camera, WhichCameraToUse::Sun);
    apply_control_action(&mut s, Action::CycleFirstAndThirdPersonViews, true, None, None);
    assert_eq!(s.selected_camera, WhichCameraToUse::FirstPerson);
}

#[test]
fn controls_remove_place_and_throw_blocks() {
    let directions = OrientedAxis::all_the_six_possible_directions();
    let target = OrientedFaceCoords { interior_coords: p(1, 2, 3), direction_to_exterior: directions[4] };
    let mut s = state(PlayingMode::Play);
    // Removing a block takes it in hand and leaves air.
    let ground = Block::from(BlockTypeTable::GROUND_ID);
    match apply_control_action(&mut s, Action::RemoveBlockAtTarget, true, Some(target), Some(ground)) {
        ControlEffect::SetBlock { coords, block } => {
            assert_eq!(coords, p(1, 2, 3));
            assert_eq!(block.type_id, BlockTypeTable::AIR_ID);
        },
        _ => panic!("expected a block edit"),
    }
    assert_eq!(s.player_held_block.as_ref().map(|b| b.type_id), Some(BlockTypeTable::GROUND_ID));
    // Placing puts the held block on the other side of the face.
    match apply_control_action(&mut s, Action::PlaceBlockAtTarget, true, Some(target), None) {
        ControlEffect::SetBlock { coords, block } => {
            assert_eq!(coords, p(1, 2, 4));
            assert_eq!(block.type_id, BlockTypeTable::GROUND_ID);
        },
        _ => panic!("expected a block edit"),
    }
    assert!(s.player_held_block.is_none());
    // Nothing to place in the play mode; a text block in the free mode.
    assert!(matches!(
        apply_control_action(&mut s, Action::PlaceBlockAtTarget, true, Some(target), None),
        ControlEffect::Nothing
    ));
    let mut free = state(PlayingMode::Free);
    match apply_control_action(&mut free, Action::PlaceBlockAtTarget, true, Some(target), None) {
        ControlEffect::SetBlock { block, .. } => {
            assert_eq!(block.type_id, BlockTypeTable::TEXT_ID);
            assert!(matches!(block.data, Some(BlockData::Text(ref t)) if t == "Jaaj"));
        },
        _ => panic!("expected a block edit"),
    }
    // Throwing the held block.
    s.player_held_block = Some(Block::from(5));
    assert!(matches!(
        apply_control_action(&mut s, Action::ThrowBlock, true, None, None),
        ControlEffect::ThrowBlock(ref b) if b.type_id == 5
    ));
    assert!(s.player_held_block.is_none());
    assert!(matches!(
        apply_control_action(&mut free, Action::ThrowBlock, true, None, None),
        ControlEffect::ThrowTestBlocks
    ));
    let table = BlockTypeTable::new();
    assert_eq!(block_swapped_under_player(&table, BlockTypeTable::GROUND_ID).type_id, BlockTypeTable::AIR_ID);
    assert_eq!(block_swapped_under_player(&table, BlockTypeTable::AIR_ID).type_id, BlockTypeTable::GROUND_ID);
}

#[test]
fn face_mesh_of_a_top_face() {
    let directions = OrientedAxis::all_the_six_possible_directions();
    let z_plus = directions[4];
    let empty = BitCube3::new_zero();
    let mesh = block_face_mesh(z_plus, p(3, 4, 5), empty);
    assert_eq!(mesh.block, p(3, 4, 5));
    assert_eq!(mesh.normal, Vector3i::new(0, 0, 1));
    assert_eq!(mesh.vertices.len(), 6);
    // No occlusion: the diagonal 0-3 is used, corners 0, 2, 1, 1, 2, 3.
    let offsets: Vec<Vector3i> = mesh.vertices.iter().map(|v| v.offset_in_half_blocks).collect();
    assert_eq!(
        offsets,
        vec![
            Vector3i::new(-1, -1, 1),
            Vector3i::new(1, -1, 1),
            Vector3i::new(-1, 1, 1),
            Vector3i::new(-1, 1, 1),
            Vector3i::new(1, -1, 1),
            Vector3i::new(1, 1, 1),
        ]
    );
    assert!(mesh.vertices.iter().all(|v| v.ambiant_occlusion == 3));
    assert_eq!(mesh.vertices[0].texture_corner, Point2i { x: 0, y: 0 });
    assert_eq!(mesh.vertices[5].texture_corner, Point2i { x: 1, y: 1 });
    // Opaque blocks on both sides of the corner (-1, -1) darken it fully.
    let mut cube = BitCube3::new_zero();
    cube.set(BitCube3Coords::from_point(p(-1, 0, 1)), true);
    cube.set(BitCube3Coords::from_point(p(0, -1, 1)), true);
    let mesh = block_face_mesh(z_plus, p(0, 0, 0), cube);
    assert_eq!(mesh.vertices[0].offset_in_half_blocks, Vector3i::new(-1, -1, 1));
    assert_eq!(mesh.vertices[0].ambiant_occlusion, 0);
    assert_eq!(mesh.vertices[2].ambiant_occlusion, 2);
    // A darker corner 1 makes the square be cut along the other diagonal.
    let mut cube = BitCube3::new_zero();
    cube.set(BitCube3Coords::from_point(p(-1, 1, 1)), true);
    let mesh = block_face_mesh(z_plus, p(0, 0, 0), cube);
    assert_eq!(mesh.vertices[0].offset_in_half_blocks, Vector3i::new(-1, 1, 1));
    assert_eq!(mesh.vertices[0].ambiant_occlusion, 2);
}

#[test]
fn save_files_are_deflated_and_inflated_back() {
    let data: Vec<u8> = (0..200u32).map(|i| (i % 7) as u8).collect();
    let contents = chunk_save_file_contents(&data);
    assert_ne!(contents, data);
    assert_eq!(chunk_save_data_from_file(Some(contents)), Some(Ok(data)));
    assert_eq!(chunk_save_data_from_file(None), None);
    assert_eq!(
        chunk_save_data_from_file(Some(vec![0xff, 0xff, 0xff])),
        Some(Err(SaveDataError::NotDeflated))
    );
}
