use std::cmp::Ordering;

use qwy3::entities::{block_entity_landing, BlockEntityLanding, IdGenerator, IdGeneratorState};
use qwy3::physics::PlayerJumpManager;
use qwy3::table_allocator::{AllocationDecision, FreeInterval, TableAllocator};
use qwy3::world_gen::{DefaultWorldGenerator, StructureTypeId, WhichWorldGenerator};

fn allocated_index(decision: AllocationDecision) -> usize {
    match decision {
        AllocationDecision::AllocateIndex(index) => index,
        AllocationDecision::NeedsBiggerBuffer => panic!("expected an index"),
    }
}

#[test]
fn table_allocator_allocates_from_the_end() {
    let mut allocator = TableAllocator::new(3);
    assert_eq!(allocated_index(allocator.allocate_one()), 2);
    assert_eq!(allocated_index(allocator.allocate_one()), 1);
    assert_eq!(allocated_index(allocator.allocate_one()), 0);
    assert!(matches!(allocator.allocate_one(), AllocationDecision::NeedsBiggerBuffer));
    allocator.length_increased_to(5);
    assert_eq!(allocated_index(allocator.allocate_one()), 4);
}

#[test]
fn table_allocator_free_then_allocate_again() {
    let mut allocator = TableAllocator::new(6);
    for _ in 0..6 {
        allocator.allocate_one();
    }
    // Freeing 1, then 3, then 2 merges them into one interval.
    allocator.free_one(1);
    allocator.free_one(3);
    allocator.free_one(2);
    assert_eq!(allocated_index(allocator.allocate_one()), 3);
    assert_eq!(allocated_index(allocator.allocate_one()), 2);
    allocator.free_one(5);
    assert_eq!(allocated_index(allocator.allocate_one()), 5);
    assert_eq!(allocated_index(allocator.allocate_one()), 1);
    assert!(matches!(allocator.allocate_one(), AllocationDecision::NeedsBiggerBuffer));
}

#[test]
fn free_intervals() {
    let a = FreeInterval { inf: 2, sup_excluded: 5 };
    assert_eq!(a.length(), 3);
    assert!(a.contains(2));
    assert!(a.contains(4));
    assert!(!a.contains(5));
    let b = FreeInterval { inf: 5, sup_excluded: 7 };
    let c = FreeInterval { inf: 4, sup_excluded: 6 };
    assert_eq!(a.partial_cmp(&b), Some(Ordering::Less));
    assert_eq!(b.partial_cmp(&a), Some(Ordering::Greater));
    assert_eq!(a.partial_cmp(&a), Some(Ordering::Equal));
    assert_eq!(a.partial_cmp(&c), None);
    assert!(a < b);
}

#[test]
fn ids_are_generated_in_order() {
    let mut generator = IdGenerator::new();
    let first = generator.generate_id();
    let second = generator.generate_id();
    assert_ne!(first, second);
    let state = generator.state();
    assert_eq!(state, IdGeneratorState(2));
    let mut restored = IdGenerator::from_state(state);
    let third = restored.generate_id();
    assert_ne!(third, first);
    assert_ne!(third, second);
    assert_eq!(restored.state(), IdGeneratorState(3));
}

#[test]
fn jumping_with_a_grace_period() {
    let mut jumps = PlayerJumpManager::new();
    assert!(!jumps.jump(false, 0));
    jumps.manage(true, 1_000_000);
    jumps.manage(false, 1_050_000);
    // Falling off an edge for 0.1 s: it can still jump, once.
    assert!(jumps.jump(false, 1_100_000));
    assert!(!jumps.jump(false, 1_100_001));
    jumps.manage(true, 2_000_000);
    // Too late: 0.15 s after leaving the ground.
    assert!(!jumps.jump(false, 2_150_000));
    assert!(jumps.jump(true, 2_150_000));
}

#[test]
fn world_generator_choices() {
    let which = WhichWorldGenerator::StructuresGeneratedBlocks;
    assert_eq!(which, WhichWorldGenerator::StructuresGeneratedBlocks);
    assert_ne!(WhichWorldGenerator::Default, WhichWorldGenerator::Flat);
    let generator = DefaultWorldGenerator { seed: 3 };
    assert_eq!(generator.seed, 3);
    assert_eq!(StructureTypeId { index: 2 }.index, 2);
}

#[test]
fn freeing_undoes_an_allocation() {
    let mut allocator = TableAllocator::new(4);
    let first = allocated_index(allocator.allocate_one());
    allocator.free_one(first);
    assert_eq!(allocated_index(allocator.allocate_one()), first);
    let second = allocated_index(allocator.allocate_one());
    allocator.free_one(second);
    assert_eq!(allocated_index(allocator.allocate_one()), second);
}

#[test]
fn block_entities_land_on_opaque_blocks() {
    assert_eq!(block_entity_landing(false, false, true), BlockEntityLanding::AlignOnTheGrid);
    assert_eq!(block_entity_landing(true, false, false), BlockEntityLanding::AlignOnTheGrid);
    assert_eq!(block_entity_landing(false, true, true), BlockEntityLanding::PlaceItsBlock);
    assert_eq!(block_entity_landing(true, true, true), BlockEntityLanding::StayAnEntity);
    assert_eq!(block_entity_landing(false, true, false), BlockEntityLanding::StayAnEntity);
}
