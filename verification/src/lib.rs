//! Qwy3: the logic of a voxel game, with its command language Qwy Script.

pub mod bits;
pub mod block_types;
pub mod chunk_blocks;
pub mod chunk_meshing;
pub mod controls;
pub mod coords;
pub mod entities;
pub mod face_mesh;
pub mod font;
pub mod game_controls;
pub mod interval_order;
pub mod lang;
pub mod physics;
pub mod saves;
pub mod table_allocator;
pub mod world_gen;
