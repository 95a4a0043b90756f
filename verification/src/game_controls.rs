//! What the player's controls do: each triggered action changes the player's settings (walking,
//! views, displays) and may edit the world, throw the held block, or ask the game to do
//! something outside (jump, grab the cursor, print, change the window). The game loop performs
//! what comes out.

use vstd::prelude::*;

use crate::block_types::{BlockTypeId, BlockTypeTable};
use crate::chunk_blocks::{Block, BlockData, BlockModel};
use crate::controls::Action;
use crate::coords::{in_i32, spec_delta, BlockCoords, OrientedFaceCoords};

verus! {

/// Whether the player plays under the rules of the game or is free of them.
#[derive(Debug, Clone, Copy, PartialEq, Eq, Structural)]
pub enum PlayingMode {
    /// Playing the game and facing its challenges, without cheating.
    Play,
    /// Free from the limitations of the `Play` mode.
    Free,
}

/// The camera that the game renders from.
#[derive(Debug, Clone, Copy, PartialEq, Eq, Structural)]
pub enum WhichCameraToUse {
    FirstPerson,
    ThirdPersonNear,
    ThirdPersonFar,
    ThirdPersonVeryFar,
    ThirdPersonTooFar,
    Sun,
}

/// The player's settings that the controls change, and the block the player holds.
pub struct PlayerControlState {
    pub playing_mode: PlayingMode,
    pub walking_forward: bool,
    pub walking_backward: bool,
    pub walking_leftward: bool,
    pub walking_rightward: bool,
    pub enable_player_physics: bool,
    pub enable_world_generation: bool,
    pub selected_camera: WhichCameraToUse,
    pub enable_display_phys_box: bool,
    pub cursor_is_captured: bool,
    pub enable_display_interface: bool,
    pub typing_in_command_line: bool,
    pub enable_display_not_surrounded_chunks_as_boxes: bool,
    pub enable_interface_draw_debug_boxes: bool,
    pub enable_fog: bool,
    pub enable_fullscreen: bool,
    pub enable_display_chunks_with_entities_as_boxes: bool,
    pub player_held_block: Option<Block>,
}

/// `PlayerControlState` as plain values.
pub struct ControlStateModel {
    pub playing_mode: PlayingMode,
    pub walking_forward: bool,
    pub walking_backward: bool,
    pub walking_leftward: bool,
    pub walking_rightward: bool,
    pub enable_player_physics: bool,
    pub enable_world_generation: bool,
    pub selected_camera: WhichCameraToUse,
    pub enable_display_phys_box: bool,
    pub cursor_is_captured: bool,
    pub enable_display_interface: bool,
    pub typing_in_command_line: bool,
    pub enable_display_not_surrounded_chunks_as_boxes: bool,
    pub enable_interface_draw_debug_boxes: bool,
    pub enable_fog: bool,
    pub enable_fullscreen: bool,
    pub enable_display_chunks_with_entities_as_boxes: bool,
    pub player_held_block: Option<BlockModel>,
}

pub open spec fn block_model_opt(b: Option<Block>) -> Option<BlockModel> {
    match b {
        Some(block) => Some(block.model()),
        None => None,
    }
}

impl PlayerControlState {
    pub open spec fn view(&self) -> ControlStateModel {
        ControlStateModel {
            playing_mode: self.playing_mode,
            walking_forward: self.walking_forward,
            walking_backward: self.walking_backward,
            walking_leftward: self.walking_leftward,
            walking_rightward: self.walking_rightward,
            enable_player_physics: self.enable_player_physics,
            enable_world_generation: self.enable_world_generation,
            selected_camera: self.selected_camera,
            enable_display_phys_box: self.enable_display_phys_box,
            cursor_is_captured: self.cursor_is_captured,
            enable_display_interface: self.enable_display_interface,
            typing_in_command_line: self.typing_in_command_line,
            enable_display_not_surrounded_chunks_as_boxes: self.enable_display_not_surrounded_chunks_as_boxes,
            enable_interface_draw_debug_boxes: self.enable_interface_draw_debug_boxes,
            enable_fog: self.enable_fog,
            enable_fullscreen: self.enable_fullscreen,
            enable_display_chunks_with_entities_as_boxes: self.enable_display_chunks_with_entities_as_boxes,
            player_held_block: block_model_opt(self.player_held_block),
        }
    }
}

/// What the game has to do after an action.
pub enum ControlEffect {
    Nothing,
    /// The player jumps (if the jump manager allows it).
    Jump,
    /// The cursor is now captured by the window, or released.
    CursorCaptured(bool),
    /// The player's coordinates are printed.
    PrintCoords,
    /// The block under the player is swapped (see `block_swapped_under_player`).
    PlaceOrRemoveBlockUnderPlayer,
    /// The block at `coords` becomes `block`.
    SetBlock { coords: BlockCoords, block: Block },
    /// The block is thrown from the player, as an entity.
    ThrowBlock(Block),
    /// Test blocks of random generated types are thrown from the player.
    ThrowTestBlocks,
    /// The command line is opened.
    CommandLineOpened,
    /// The fog is now enabled, or disabled.
    FogEnabled(bool),
    /// The window is now fullscreen, or not.
    FullscreenEnabled(bool),
}

/// `ControlEffect` as plain values.
pub enum EffectModel {
    Nothing,
    Jump,
    CursorCaptured(bool),
    PrintCoords,
    PlaceOrRemoveBlockUnderPlayer,
    SetBlock(BlockCoords, BlockModel),
    ThrowBlock(BlockModel),
    ThrowTestBlocks,
    CommandLineOpened,
    FogEnabled(bool),
    FullscreenEnabled(bool),
}

impl ControlEffect {
    pub open spec fn model(self) -> EffectModel {
        match self {
            ControlEffect::Nothing => EffectModel::Nothing,
            ControlEffect::Jump => EffectModel::Jump,
            ControlEffect::CursorCaptured(b) => EffectModel::CursorCaptured(b),
            ControlEffect::PrintCoords => EffectModel::PrintCoords,
            ControlEffect::PlaceOrRemoveBlockUnderPlayer => EffectModel::PlaceOrRemoveBlockUnderPlayer,
            ControlEffect::SetBlock { coords, block } => EffectModel::SetBlock(coords, block.model()),
            ControlEffect::ThrowBlock(block) => EffectModel::ThrowBlock(block.model()),
            ControlEffect::ThrowTestBlocks => EffectModel::ThrowTestBlocks,
            ControlEffect::CommandLineOpened => EffectModel::CommandLineOpened,
            ControlEffect::FogEnabled(b) => EffectModel::FogEnabled(b),
            ControlEffect::FullscreenEnabled(b) => EffectModel::FullscreenEnabled(b),
        }
    }
}

/// The camera that comes after `c` when cycling the first and third person views (the sun
/// view goes back to the first person).
pub open spec fn next_person_view(c: WhichCameraToUse) -> WhichCameraToUse {
    match c {
        WhichCameraToUse::FirstPerson => WhichCameraToUse::ThirdPersonNear,
        WhichCameraToUse::ThirdPersonNear => WhichCameraToUse::ThirdPersonFar,
        WhichCameraToUse::ThirdPersonFar => WhichCameraToUse::ThirdPersonVeryFar,
        WhichCameraToUse::ThirdPersonVeryFar => WhichCameraToUse::ThirdPersonTooFar,
        WhichCameraToUse::ThirdPersonTooFar => WhichCameraToUse::FirstPerson,
        WhichCameraToUse::Sun => WhichCameraToUse::FirstPerson,
    }
}

/// The block that a free player places where there is a target and no held block: a text block
/// that reads "Jaaj".
pub open spec fn free_placed_block() -> BlockModel {
    (BlockTypeTable::TEXT_ID, Some("Jaaj"@))
}

/// The block on the other side of the targeted face.
pub open spec fn exterior_of(t: OrientedFaceCoords) -> BlockCoords {
    t.interior_coords.moved(spec_delta(t.direction_to_exterior))
}

/// What a walking action does: the player walks that way while it is pressed.
pub open spec fn walk_step(s: ControlStateModel, action: Action, pressed: bool) -> (
    ControlStateModel,
    EffectModel,
) {
    if action == Action::WalkForward {
        (ControlStateModel { walking_forward: pressed, ..s }, EffectModel::Nothing)
    } else if action == Action::WalkBackward {
        (ControlStateModel { walking_backward: pressed, ..s }, EffectModel::Nothing)
    } else if action == Action::WalkLeftward {
        (ControlStateModel { walking_leftward: pressed, ..s }, EffectModel::Nothing)
    } else {
        (ControlStateModel { walking_rightward: pressed, ..s }, EffectModel::Nothing)
    }
}

/// What placing, removing or throwing a block does (when pressed), with the targeted face (if
/// any) and the block on its inside (if known).
pub open spec fn block_step(
    s: ControlStateModel,
    action: Action,
    target: Option<OrientedFaceCoords>,
    block_at_target: Option<BlockModel>,
) -> (ControlStateModel, EffectModel) {
    match action {
        Action::PlaceBlockAtTarget => match target {
            None => (s, EffectModel::Nothing),
            Some(t) => match s.player_held_block {
                Some(b) => (
                    ControlStateModel { player_held_block: None, ..s },
                    EffectModel::SetBlock(exterior_of(t), b),
                ),
                None => if s.playing_mode == PlayingMode::Free {
                    (s, EffectModel::SetBlock(exterior_of(t), free_placed_block()))
                } else {
                    (s, EffectModel::Nothing)
                },
            },
        },
        Action::RemoveBlockAtTarget => match target {
            Some(t) => match s.player_held_block {
                Some(b) => (
                    ControlStateModel { player_held_block: None, ..s },
                    EffectModel::SetBlock(exterior_of(t), b),
                ),
                None => (
                    ControlStateModel { player_held_block: block_at_target, ..s },
                    EffectModel::SetBlock(t.interior_coords, (BlockTypeTable::AIR_ID, None)),
                ),
            },
            None => match s.player_held_block {
                Some(b) => (ControlStateModel { player_held_block: None, ..s }, EffectModel::ThrowBlock(b)),
                None => (s, EffectModel::Nothing),
            },
        },
        _ => match s.player_held_block {
            Some(b) => (ControlStateModel { player_held_block: None, ..s }, EffectModel::ThrowBlock(b)),
            None => if s.playing_mode == PlayingMode::Free {
                (s, EffectModel::ThrowTestBlocks)
            } else {
                (s, EffectModel::Nothing)
            },
        },
    }
}

/// What the other actions do (when pressed): toggles of settings and views, and requests to the
/// game.
pub open spec fn setting_step(s: ControlStateModel, action: Action) -> (ControlStateModel, EffectModel) {
    match action {
        Action::Jump => (s, EffectModel::Jump),
        Action::TogglePhysics => if s.playing_mode == PlayingMode::Free {
            (ControlStateModel { enable_player_physics: !s.enable_player_physics, ..s }, EffectModel::Nothing)
        } else {
            (s, EffectModel::Nothing)
        },
        Action::ToggleWorldGeneration => (
            ControlStateModel { enable_world_generation: !s.enable_world_generation, ..s },
            EffectModel::Nothing,
        ),
        Action::CycleFirstAndThirdPersonViews => (
            ControlStateModel { selected_camera: next_person_view(s.selected_camera), ..s },
            EffectModel::Nothing,
        ),
        Action::ToggleDisplayPlayerBox => (
            ControlStateModel { enable_display_phys_box: !s.enable_display_phys_box, ..s },
            EffectModel::Nothing,
        ),
        Action::ToggleSunView => (
            ControlStateModel {
                selected_camera: if s.selected_camera == WhichCameraToUse::Sun {
                    WhichCameraToUse::FirstPerson
                } else {
                    WhichCameraToUse::Sun
                },
                ..s
            },
            EffectModel::Nothing,
        ),
        Action::ToggleCursorCaptured => (
            ControlStateModel { cursor_is_captured: !s.cursor_is_captured, ..s },
            EffectModel::CursorCaptured(!s.cursor_is_captured),
        ),
        Action::PrintCoords => (s, EffectModel::PrintCoords),
        Action::PlaceOrRemoveBlockUnderPlayer => if s.playing_mode == PlayingMode::Free {
            (s, EffectModel::PlaceOrRemoveBlockUnderPlayer)
        } else {
            (s, EffectModel::Nothing)
        },
        Action::ToggleDisplayInterface => (
            ControlStateModel { enable_display_interface: !s.enable_display_interface, ..s },
            EffectModel::Nothing,
        ),
        Action::OpenCommandLine => (
            ControlStateModel { typing_in_command_line: true, ..s },
            EffectModel::CommandLineOpened,
        ),
        Action::ToggleDisplayNotSurroundedChunksAsBoxes => (
            ControlStateModel {
                enable_display_not_surrounded_chunks_as_boxes: !s.enable_display_not_surrounded_chunks_as_boxes,
                ..s
            },
            EffectModel::Nothing,
        ),
        Action::ToggleDisplayInterfaceDebugBoxes => (
            ControlStateModel {
                enable_interface_draw_debug_boxes: !s.enable_interface_draw_debug_boxes,
                ..s
            },
            EffectModel::Nothing,
        ),
        Action::ToggleFog => (
            ControlStateModel { enable_fog: !s.enable_fog, ..s },
            EffectModel::FogEnabled(!s.enable_fog),
        ),
        Action::ToggleFullscreen => (
            ControlStateModel { enable_fullscreen: !s.enable_fullscreen, ..s },
            EffectModel::FullscreenEnabled(!s.enable_fullscreen),
        ),
        _ => (
            ControlStateModel {
                enable_display_chunks_with_entities_as_boxes: !s.enable_display_chunks_with_entities_as_boxes,
                ..s
            },
            EffectModel::Nothing,
        ),
    }
}

pub open spec fn is_walking(action: Action) -> bool {
    action == Action::WalkForward || action == Action::WalkBackward || action == Action::WalkLeftward
        || action == Action::WalkRightward
}

pub open spec fn is_block_action(action: Action) -> bool {
    action == Action::PlaceBlockAtTarget || action == Action::RemoveBlockAtTarget || action
        == Action::ThrowBlock
}

/// What an action does, pressed or released, with the targeted face (if any) and the block on
/// its inside (if known): the player's new settings and what the game has to do. Only walking
/// reacts to a release.
pub open spec fn control_step(
    s: ControlStateModel,
    action: Action,
    pressed: bool,
    target: Option<OrientedFaceCoords>,
    block_at_target: Option<BlockModel>,
) -> (ControlStateModel, EffectModel) {
    if is_walking(action) {
        walk_step(s, action, pressed)
    } else if !pressed {
        (s, EffectModel::Nothing)
    } else if is_block_action(action) {
        block_step(s, action, target, block_at_target)
    } else {
        setting_step(s, action)
    }
}

/// The player's new settings and what the game has to do are those of `control_step`.
pub open spec fn step_is(
    new_state: ControlStateModel,
    effect: EffectModel,
    step: (ControlStateModel, EffectModel),
) -> bool {
    new_state == step.0 && effect == step.1
}

/// Whether the block on the other side of the face has coordinates in `i32`.
pub open spec fn exterior_fits(t: OrientedFaceCoords) -> bool {
    let d = spec_delta(t.direction_to_exterior);
    &&& in_i32(t.interior_coords.x + d.x)
    &&& in_i32(t.interior_coords.y + d.y)
    &&& in_i32(t.interior_coords.z + d.z)
}

/// Performs the action (pressed or released) on the player's settings, with the targeted face
/// (if any) and the block on its inside (if known), and returns what the game has to do. The
/// block on the inside of the target must be known when a player who holds nothing removes it.
pub fn apply_control_action(
    state: &mut PlayerControlState,
    action: Action,
    pressed: bool,
    target: Option<OrientedFaceCoords>,
    block_at_target: Option<Block>,
) -> (effect: ControlEffect)
    requires
        target matches Some(t) ==> exterior_fits(t),
        action == Action::RemoveBlockAtTarget && pressed && target is Some
            && old(state).player_held_block is None ==> block_at_target is Some,
    ensures
        step_is(final(state)@, effect.model(), control_step(
            old(state)@,
            action,
            pressed,
            target,
            block_model_opt(block_at_target),
        )),
{
    if is_walking_exec(action) {
        apply_walking(state, action, pressed);
        ControlEffect::Nothing
    } else if !pressed {
        ControlEffect::Nothing
    } else if is_block_action_exec(action) {
        let effect = block_action_effect(state, action, target, &block_at_target);
        apply_block_action(state, action, target, block_at_target);
        effect
    } else {
        let effect = setting_action_effect(state, action);
        apply_setting_action(state, action);
        effect
    }
}

/// Pressing or releasing a walking action sets the walking flag named after that action to
/// whether it is pressed, leaves every other setting as it was (the three other walking flags
/// among them), and asks nothing of the game.
pub proof fn law_walking_sets_its_own_flag(
    s: ControlStateModel,
    action: Action,
    pressed: bool,
    target: Option<OrientedFaceCoords>,
    block_at_target: Option<BlockModel>,
)
    requires
        action == Action::WalkForward || action == Action::WalkBackward || action
            == Action::WalkLeftward || action == Action::WalkRightward,
    ensures
        ({
            let (n, e) = control_step(s, action, pressed, target, block_at_target);
            &&& n.walking_forward == (if action == Action::WalkForward {
                pressed
            } else {
                s.walking_forward
            })
            &&& n.walking_backward == (if action == Action::WalkBackward {
                pressed
            } else {
                s.walking_backward
            })
            &&& n.walking_leftward == (if action == Action::WalkLeftward {
                pressed
            } else {
                s.walking_leftward
            })
            &&& n.walking_rightward == (if action == Action::WalkRightward {
                pressed
            } else {
                s.walking_rightward
            })
            &&& n == ControlStateModel {
                walking_forward: n.walking_forward,
                walking_backward: n.walking_backward,
                walking_leftward: n.walking_leftward,
                walking_rightward: n.walking_rightward,
                ..s
            }
            &&& e == EffectModel::Nothing
        }),
{
}

/// Releasing an action other than walking changes no setting and asks nothing of the game.
pub proof fn law_releasing_only_matters_for_walking(
    s: ControlStateModel,
    action: Action,
    target: Option<OrientedFaceCoords>,
    block_at_target: Option<BlockModel>,
)
    requires
        action != Action::WalkForward && action != Action::WalkBackward && action
            != Action::WalkLeftward && action != Action::WalkRightward,
    ensures
        control_step(s, action, false, target, block_at_target) == (s, EffectModel::Nothing),
{
}

/// Pressing a toggle flips the setting named after it and no other (the game is told the new
/// state of the cursor capture, of the fog and of the fullscreen mode); toggling the physics
/// does so only for a free player, and changes nothing otherwise.
pub proof fn law_toggles_flip_their_own_setting(
    s: ControlStateModel,
    target: Option<OrientedFaceCoords>,
    block_at_target: Option<BlockModel>,
)
    ensures
        control_step(s, Action::ToggleWorldGeneration, true, target, block_at_target) == (
            ControlStateModel { enable_world_generation: !s.enable_world_generation, ..s },
            EffectModel::Nothing,
        ),
        control_step(s, Action::ToggleDisplayPlayerBox, true, target, block_at_target) == (
            ControlStateModel { enable_display_phys_box: !s.enable_display_phys_box, ..s },
            EffectModel::Nothing,
        ),
        control_step(s, Action::ToggleCursorCaptured, true, target, block_at_target) == (
            ControlStateModel { cursor_is_captured: !s.cursor_is_captured, ..s },
            EffectModel::CursorCaptured(!s.cursor_is_captured),
        ),
        control_step(s, Action::ToggleDisplayInterface, true, target, block_at_target) == (
            ControlStateModel { enable_display_interface: !s.enable_display_interface, ..s },
            EffectModel::Nothing,
        ),
        control_step(s, Action::ToggleDisplayNotSurroundedChunksAsBoxes, true, target, block_at_target) == (
            ControlStateModel { enable_display_not_surrounded_chunks_as_boxes: !s.enable_display_not_surrounded_chunks_as_boxes, ..s },
            EffectModel::Nothing,
        ),
        control_step(s, Action::ToggleDisplayInterfaceDebugBoxes, true, target, block_at_target) == (
            ControlStateModel { enable_interface_draw_debug_boxes: !s.enable_interface_draw_debug_boxes, ..s },
            EffectModel::Nothing,
        ),
        control_step(s, Action::ToggleFog, true, target, block_at_target) == (
            ControlStateModel { enable_fog: !s.enable_fog, ..s },
            EffectModel::FogEnabled(!s.enable_fog),
        ),
        control_step(s, Action::ToggleFullscreen, true, target, block_at_target) == (
            ControlStateModel { enable_fullscreen: !s.enable_fullscreen, ..s },
            EffectModel::FullscreenEnabled(!s.enable_fullscreen),
        ),
        control_step(s, Action::ToggleDisplayChunksWithEntitiesAsBoxes, true, target, block_at_target) == (
            ControlStateModel { enable_display_chunks_with_entities_as_boxes: !s.enable_display_chunks_with_entities_as_boxes, ..s },
            EffectModel::Nothing,
        ),
        control_step(s, Action::TogglePhysics, true, target, block_at_target) == (
            if s.playing_mode == PlayingMode::Free {
                ControlStateModel { enable_player_physics: !s.enable_player_physics, ..s }
            } else {
                s
            },
            EffectModel::Nothing,
        ),
{
}

fn is_walking_exec(action: Action) -> (r: bool)
    ensures
        r == is_walking(action),
{
    action == Action::WalkForward || action == Action::WalkBackward || action == Action::WalkLeftward
        || action == Action::WalkRightward
}

fn is_block_action_exec(action: Action) -> (r: bool)
    ensures
        r == is_block_action(action),
{
    action == Action::PlaceBlockAtTarget || action == Action::RemoveBlockAtTarget || action
        == Action::ThrowBlock
}

/// What walking does to the player's settings.
#[verifier::rlimit(100)]
fn apply_walking(state: &mut PlayerControlState, action: Action, pressed: bool)
    requires
        is_walking(action),
    ensures
        final(state)@ == walk_step(old(state)@, action, pressed).0,
{
    if action == Action::WalkForward {
        state.walking_forward = pressed;
    } else if action == Action::WalkBackward {
        state.walking_backward = pressed;
    } else if action == Action::WalkLeftward {
        state.walking_leftward = pressed;
    } else {
        state.walking_rightward = pressed;
    }
}

/// What placing, removing or throwing a block asks of the game (the player's settings are
/// changed by `apply_block_action`).
fn block_action_effect(
    state: &PlayerControlState,
    action: Action,
    target: Option<OrientedFaceCoords>,
    block_at_target: &Option<Block>,
) -> (effect: ControlEffect)
    requires
        is_block_action(action),
        target matches Some(t) ==> exterior_fits(t),
    ensures
        effect.model() == block_step(state@, action, target, block_model_opt(*block_at_target)).1,
{
    let held = match &state.player_held_block {
        Some(block) => Some(block.duplicate()),
        None => None,
    };
    if action == Action::PlaceBlockAtTarget {
        match target {
            None => ControlEffect::Nothing,
            Some(t) => {
                let exterior = t.exterior_coords();
                match held {
                    Some(block) => ControlEffect::SetBlock { coords: exterior, block },
                    None => {
                        if state.playing_mode == PlayingMode::Free {
                            let text = "Jaaj".to_owned();
                            proof {
                                reveal_strlit("Jaaj");
                            }
                            ControlEffect::SetBlock {
                                coords: exterior,
                                block: Block {
                                    type_id: BlockTypeTable::TEXT_ID,
                                    data: Some(BlockData::Text(text)),
                                },
                            }
                        } else {
                            ControlEffect::Nothing
                        }
                    },
                }
            },
        }
    } else if action == Action::RemoveBlockAtTarget {
        match target {
            Some(t) => match held {
                Some(block) => ControlEffect::SetBlock { coords: t.exterior_coords(), block },
                None => ControlEffect::SetBlock { coords: t.interior_coords, block: Block::new_air() },
            },
            None => match held {
                Some(block) => ControlEffect::ThrowBlock(block),
                None => ControlEffect::Nothing,
            },
        }
    } else {
        match held {
            Some(block) => ControlEffect::ThrowBlock(block),
            None => {
                if state.playing_mode == PlayingMode::Free {
                    ControlEffect::ThrowTestBlocks
                } else {
                    ControlEffect::Nothing
                }
            },
        }
    }
}

/// What placing, removing or throwing a block does to the block the player holds.
#[verifier::rlimit(100)]
fn apply_block_action(
    state: &mut PlayerControlState,
    action: Action,
    target: Option<OrientedFaceCoords>,
    block_at_target: Option<Block>,
)
    requires
        is_block_action(action),
    ensures
        final(state)@ == block_step(old(state)@, action, target, block_model_opt(block_at_target)).0,
{
    let ghost s0 = state@;
    let ghost b0 = block_model_opt(block_at_target);
    if state.player_held_block.is_some() {
        if action != Action::PlaceBlockAtTarget || target.is_some() {
            state.player_held_block = None;
            proof { assert(state@ == block_step(s0, action, target, b0).0); }
        } else {
            proof { assert(state@ == block_step(s0, action, target, b0).0); }
        }
    } else if action == Action::RemoveBlockAtTarget && target.is_some() {
        state.player_held_block = block_at_target;
        proof { assert(state@ == block_step(s0, action, target, b0).0); }
    } else {
        proof { assert(state@ == block_step(s0, action, target, b0).0); }
    }
}

/// What the other actions ask of the game (the player's settings are changed by
/// `apply_setting_action`).
fn setting_action_effect(state: &PlayerControlState, action: Action) -> (effect: ControlEffect)
    requires
        !is_walking(action),
        !is_block_action(action),
    ensures
        effect.model() == setting_step(state@, action).1,
{
    if action == Action::Jump {
        ControlEffect::Jump
    } else if action == Action::ToggleCursorCaptured {
        ControlEffect::CursorCaptured(!state.cursor_is_captured)
    } else if action == Action::PrintCoords {
        ControlEffect::PrintCoords
    } else if action == Action::PlaceOrRemoveBlockUnderPlayer {
        if state.playing_mode == PlayingMode::Free {
            ControlEffect::PlaceOrRemoveBlockUnderPlayer
        } else {
            ControlEffect::Nothing
        }
    } else if action == Action::OpenCommandLine {
        ControlEffect::CommandLineOpened
    } else if action == Action::ToggleFog {
        ControlEffect::FogEnabled(!state.enable_fog)
    } else if action == Action::ToggleFullscreen {
        ControlEffect::FullscreenEnabled(!state.enable_fullscreen)
    } else {
        ControlEffect::Nothing
    }
}

/// What the other actions do to the player's settings.
fn apply_setting_action(state: &mut PlayerControlState, action: Action)
    requires
        !is_walking(action),
        !is_block_action(action),
    ensures
        final(state)@ == setting_step(old(state)@, action).0,
{
    if action == Action::TogglePhysics {
        setting_toggle_physics(state);
    } else if action == Action::ToggleWorldGeneration {
        setting_toggle_world_generation(state);
    } else if action == Action::CycleFirstAndThirdPersonViews {
        setting_cycle_first_and_third_person_views(state);
    } else if action == Action::ToggleDisplayPlayerBox {
        setting_toggle_display_player_box(state);
    } else if action == Action::ToggleSunView {
        setting_toggle_sun_view(state);
    } else if action == Action::ToggleCursorCaptured {
        setting_toggle_cursor_captured(state);
    } else if action == Action::ToggleDisplayInterface {
        setting_toggle_display_interface(state);
    } else if action == Action::OpenCommandLine {
        setting_open_command_line(state);
    } else if action == Action::ToggleDisplayNotSurroundedChunksAsBoxes {
        setting_toggle_display_not_surrounded_chunks_as_boxes(state);
    } else if action == Action::ToggleDisplayInterfaceDebugBoxes {
        setting_toggle_display_interface_debug_boxes(state);
    } else if action == Action::ToggleFog {
        setting_toggle_fog(state);
    } else if action == Action::ToggleFullscreen {
        setting_toggle_fullscreen(state);
    } else if action == Action::ToggleDisplayChunksWithEntitiesAsBoxes {
        setting_toggle_display_chunks_with_entities_as_boxes(state);
    }
}

fn setting_toggle_physics(state: &mut PlayerControlState)
    ensures
        final(state)@ == setting_step(old(state)@, Action::TogglePhysics).0,
{
    if state.playing_mode == PlayingMode::Free {
        state.enable_player_physics = !state.enable_player_physics;
    }
}

fn setting_toggle_world_generation(state: &mut PlayerControlState)
    ensures
        final(state)@ == setting_step(old(state)@, Action::ToggleWorldGeneration).0,
{
    state.enable_world_generation = !state.enable_world_generation;
}

fn setting_cycle_first_and_third_person_views(state: &mut PlayerControlState)
    ensures
        final(state)@ == setting_step(old(state)@, Action::CycleFirstAndThirdPersonViews).0,
{
    state.selected_camera = match state.selected_camera {
        WhichCameraToUse::FirstPerson => WhichCameraToUse::ThirdPersonNear,
        WhichCameraToUse::ThirdPersonNear => WhichCameraToUse::ThirdPersonFar,
        WhichCameraToUse::ThirdPersonFar => WhichCameraToUse::ThirdPersonVeryFar,
        WhichCameraToUse::ThirdPersonVeryFar => WhichCameraToUse::ThirdPersonTooFar,
        WhichCameraToUse::ThirdPersonTooFar => WhichCameraToUse::FirstPerson,
        WhichCameraToUse::Sun => WhichCameraToUse::FirstPerson,
    };
}

fn setting_toggle_display_player_box(state: &mut PlayerControlState)
    ensures
        final(state)@ == setting_step(old(state)@, Action::ToggleDisplayPlayerBox).0,
{
    state.enable_display_phys_box = !state.enable_display_phys_box;
}

fn setting_toggle_sun_view(state: &mut PlayerControlState)
    ensures
        final(state)@ == setting_step(old(state)@, Action::ToggleSunView).0,
{
    state.selected_camera = if state.selected_camera == WhichCameraToUse::Sun {
        WhichCameraToUse::FirstPerson
    } else {
        WhichCameraToUse::Sun
    };
}

fn setting_toggle_cursor_captured(state: &mut PlayerControlState)
    ensures
        final(state)@ == setting_step(old(state)@, Action::ToggleCursorCaptured).0,
{
    state.cursor_is_captured = !state.cursor_is_captured;
}

fn setting_toggle_display_interface(state: &mut PlayerControlState)
    ensures
        final(state)@ == setting_step(old(state)@, Action::ToggleDisplayInterface).0,
{
    state.enable_display_interface = !state.enable_display_interface;
}

fn setting_open_command_line(state: &mut PlayerControlState)
    ensures
        final(state)@ == setting_step(old(state)@, Action::OpenCommandLine).0,
{
    state.typing_in_command_line = true;
}

fn setting_toggle_display_not_surrounded_chunks_as_boxes(state: &mut PlayerControlState)
    ensures
        final(state)@ == setting_step(old(state)@, Action::ToggleDisplayNotSurroundedChunksAsBoxes).0,
{
    state.enable_display_not_surrounded_chunks_as_boxes =
        !state.enable_display_not_surrounded_chunks_as_boxes;
}

fn setting_toggle_display_interface_debug_boxes(state: &mut PlayerControlState)
    ensures
        final(state)@ == setting_step(old(state)@, Action::ToggleDisplayInterfaceDebugBoxes).0,
{
    state.enable_interface_draw_debug_boxes = !state.enable_interface_draw_debug_boxes;
}

fn setting_toggle_fog(state: &mut PlayerControlState)
    ensures
        final(state)@ == setting_step(old(state)@, Action::ToggleFog).0,
{
    state.enable_fog = !state.enable_fog;
}

fn setting_toggle_fullscreen(state: &mut PlayerControlState)
    ensures
        final(state)@ == setting_step(old(state)@, Action::ToggleFullscreen).0,
{
    state.enable_fullscreen = !state.enable_fullscreen;
}

fn setting_toggle_display_chunks_with_entities_as_boxes(state: &mut PlayerControlState)
    ensures
        final(state)@ == setting_step(old(state)@, Action::ToggleDisplayChunksWithEntitiesAsBoxes).0,
{
    state.enable_display_chunks_with_entities_as_boxes =
        !state.enable_display_chunks_with_entities_as_boxes;
}

/// The block that swapping the block under the player puts there: air in place of an opaque
/// block, else ground.
pub open spec fn swapped_under_player(opaque: bool) -> BlockModel {
    if opaque {
        (BlockTypeTable::AIR_ID, None)
    } else {
        (BlockTypeTable::GROUND_ID, None)
    }
}

/// The block that replaces the block of type `block_type_id` under the player: air in place of
/// an opaque block, else ground. The type must be in the table.
pub fn block_swapped_under_player(block_type_table: &BlockTypeTable, block_type_id: BlockTypeId) -> (r:
    Block)
    requires
        block_type_id < block_type_table@.len(),
    ensures
        r.model() == swapped_under_player(block_type_table@[block_type_id as int] is Solid),
{
    match block_type_table.get(block_type_id) {
        Some(block_type) => {
            if block_type.is_opaque() {
                Block::new_air()
            } else {
                Block { type_id: BlockTypeTable::GROUND_ID, data: None }
            }
        },
        None => Block::new_air(),
    }
}

} // verus!
