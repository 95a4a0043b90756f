//! Unique identifiers of entities, and what a block entity does when it lands.

use vstd::prelude::*;

verus! {

/// The identifier of an entity.
#[derive(Debug, Clone, Copy, PartialEq, Eq, Structural)]
pub struct Id(u64);

impl Id {
    pub closed spec fn value(self) -> u64 {
        self.0
    }

    /// The value of the identifier.
    pub fn get(self) -> (r: u64)
        ensures
            r == self.value(),
    {
        self.0
    }
}

/// The state of an `IdGenerator`, to save it and restore it.
#[derive(Debug, Clone, Copy, PartialEq, Eq, Structural)]
pub struct IdGeneratorState(pub u64);

/// Generator of unique `Id`s: it hands them out in increasing order.
pub struct IdGenerator {
    next_id_value: u64,
}

impl IdGenerator {
    /// The value of the next `Id` that the generator will hand out; every `Id` it handed out is
    /// below it.
    pub closed spec fn next(self) -> u64 {
        self.next_id_value
    }

    pub fn new() -> (r: IdGenerator)
        ensures
            r.next() == 0,
    {
        IdGenerator { next_id_value: 0 }
    }

    pub fn from_state(state: IdGeneratorState) -> (r: IdGenerator)
        ensures
            r.next() == state.0,
    {
        IdGenerator { next_id_value: state.0 }
    }

    pub fn state(&self) -> (r: IdGeneratorState)
        ensures
            r.0 == self.next(),
    {
        IdGeneratorState(self.next_id_value)
    }

    /// An `Id` never handed out before by this generator (nor by one restored from a state it
    /// had before).
    pub fn generate_id(&mut self) -> (r: Id)
        requires
            old(self).next() < u64::MAX,
        ensures
            r.value() == old(self).next(),
            final(self).next() == old(self).next() + 1,
            r.value() < final(self).next(),
    {
        let id_value = self.next_id_value;
        self.next_id_value = id_value + 1;
        Id(id_value)
    }
}

/// No `Id` is handed out twice: over any number of calls of `generate_id` on one generator
/// (`generators[k]` being the generator before the call that gave `ids[k]`, and
/// `generators[k + 1]` the generator after it), the ids increase, so no two are equal.
pub proof fn law_ids_are_never_handed_out_twice(generators: Seq<IdGenerator>, ids: Seq<Id>)
    requires
        generators.len() == ids.len() + 1,
        forall|k: int|
            0 <= k < ids.len() ==> (#[trigger] ids[k]).value() == generators[k].next()
                && generators[k + 1].next() == generators[k].next() + 1,
    ensures
        forall|i: int, j: int| 0 <= i < j < ids.len() ==> ids[i].value() < ids[j].value(),
{
    assert forall|i: int, j: int| 0 <= i < j < ids.len() implies ids[i].value() < ids[j].value() by {
        lemma_next_grows(generators, ids, i, j);
    }
}

/// What a block entity (a block that falls as an entity) does once it is on the ground and
/// overlaps no block.
#[derive(Debug, Clone, Copy, PartialEq, Eq, Structural)]
pub enum BlockEntityLanding {
    /// Nothing opaque is below: the entity is moved to the block coordinates nearest to it,
    /// with no horizontal motion, and goes on falling.
    AlignOnTheGrid,
    /// The entity places its block at these coordinates (without losing a block there) and
    /// goes away.
    PlaceItsBlock,
    /// The entity stays as it is.
    StayAnEntity,
}

/// What a block entity on the ground does, from the block coordinates nearest to it:
/// `opaque_here` and `opaque_below` tell whether a loaded opaque block is at these coordinates
/// and just below them, and `chunk_loaded` whether the chunk of these coordinates is loaded.
/// It places its block only on something opaque, where nothing opaque is, in a loaded chunk.
pub fn block_entity_landing(opaque_here: bool, opaque_below: bool, chunk_loaded: bool) -> (r:
    BlockEntityLanding)
    ensures
        !opaque_below ==> r == BlockEntityLanding::AlignOnTheGrid,
        opaque_below && !opaque_here && chunk_loaded ==> r == BlockEntityLanding::PlaceItsBlock,
        opaque_below && (opaque_here || !chunk_loaded) ==> r == BlockEntityLanding::StayAnEntity,
{
    if !opaque_below {
        BlockEntityLanding::AlignOnTheGrid
    } else if !opaque_here && chunk_loaded {
        BlockEntityLanding::PlaceItsBlock
    } else {
        BlockEntityLanding::StayAnEntity
    }
}

proof fn lemma_next_grows(generators: Seq<IdGenerator>, ids: Seq<Id>, i: int, j: int)
    requires
        generators.len() == ids.len() + 1,
        forall|k: int|
            0 <= k < ids.len() ==> (#[trigger] ids[k]).value() == generators[k].next()
                && generators[k + 1].next() == generators[k].next() + 1,
        0 <= i < j <= ids.len(),
    ensures
        generators[j].next() >= generators[i].next() + (j - i),
        j < ids.len() ==> ids[i].value() < ids[j].value(),
    decreases j - i,
{
    assert(ids[i].value() == generators[i].next());
    if j > i + 1 {
        lemma_next_grows(generators, ids, i, j - 1);
        assert(ids[j - 1].value() == generators[j - 1].next());
    }
    if j < ids.len() {
        assert(ids[j].value() == generators[j].next());
    }
}

} // verus!
