//! The blocks of a chunk, stored in a palette-compressed grid of bit-packed keys.

use vstd::prelude::*;
use vstd::set_lib::{lemma_int_range, lemma_len_subset, set_int_range};
use crate::bits::{
    bitvec_is_empty, bitvec_load_le_u32, bitvec_repeat, bitvec_resize, bitvec_store_le_u32,
    bits_of, bits_value, lemma_bits_value_bound, lemma_bits_value_of_low_bits, low_bits, pow2,
    BitBuffer,
};
use crate::block_types::{BlockType, BlockTypeId, BlockTypeTable};
use crate::coords::{six_directions, OrientedAxis, Point3i};
use crate::coords::span::{
    face_layer_coord, in_rect, law_face_blocks_touch_the_face,
    lemma_internal_index_is_position_in_iteration, lemma_rect_seq_is_the_rect, rect_seq,
    ChunkCoordsSpan,
};

verus! {

/// The bits `i * w .. i * w + w` of `bits`: the slot of index `i` when the bits are cut into
/// slots of width `w`.
pub open spec fn slot(bits: Seq<bool>, w: nat, i: int) -> Seq<bool> {
    bits.subrange(i * w, i * w + w)
}

/// The integer written (little-endian) in the slot of index `i`.
pub open spec fn slot_value(bits: Seq<bool>, w: nat, i: int) -> nat {
    bits_value(slot(bits, w, i))
}

proof fn lemma_slot_bounds(w: nat, n: nat, i: int)
    requires
        0 <= i < n,
    ensures
        0 <= i * w,
        i * w + w <= n * w,
{
    assert(0 <= i * w && i * w + w <= n * w) by (nonlinear_arith)
        requires
            0 <= i < n,
    ;
}

/// Writing the `w` lowest bits of `v` in slot `p` makes slot `p` read `v` (when `v` fits) and
/// leaves the other slots as they were.
proof fn lemma_store_slot(bits: Seq<bool>, w: nat, n: nat, p: int, v: nat)
    requires
        bits.len() == n * w,
        0 <= p < n,
        1 <= w,
        v < pow2(w),
    ensures
        ({
            let b2 = bits.subrange(0, p * w) + low_bits(v, w) + bits.subrange(p * w + w, (n * w) as int);
            &&& b2.len() == n * w
            &&& slot_value(b2, w, p) == v
            &&& forall|j: int| 0 <= j < n && j != p ==> #[trigger] slot(b2, w, j) == slot(bits, w, j)
        }),
{
    lemma_slot_bounds(w, n, p);
    lemma_bits_value_of_low_bits(v, w);
    let b2 = bits.subrange(0, p * w) + low_bits(v, w) + bits.subrange(p * w + w, (n * w) as int);
    assert(slot(b2, w, p) =~= low_bits(v, w));
    assert forall|j: int| 0 <= j < n && j != p implies #[trigger] slot(b2, w, j) == slot(
        bits,
        w,
        j,
    ) by {
        lemma_slot_bounds(w, n, j);
        if j < p {
            assert(j * w + w <= p * w) by (nonlinear_arith)
                requires
                    j < p,
            ;
        } else {
            assert(p * w + w <= j * w) by (nonlinear_arith)
                requires
                    p < j,
            ;
        }
        assert(slot(b2, w, j) =~= slot(bits, w, j));
    }
}

/// The number of occurrences of `k` in `s`.
pub open spec fn count_of(s: Seq<int>, k: int) -> nat
    decreases s.len(),
{
    if s.len() == 0 {
        0
    } else {
        count_of(s.drop_last(), k) + (if s.last() == k {
            1nat
        } else {
            0nat
        })
    }
}

proof fn lemma_count_update(s: Seq<int>, j: int, v: int, k: int)
    requires
        0 <= j < s.len(),
    ensures
        count_of(s.update(j, v), k) + (if s[j] == k {
            1int
        } else {
            0int
        }) == count_of(s, k) + (if v == k {
            1int
        } else {
            0int
        }),
    decreases s.len(),
{
    let t = s.update(j, v);
    if j == s.len() - 1 {
        assert(t.drop_last() =~= s.drop_last());
    } else {
        lemma_count_update(s.drop_last(), j, v, k);
        assert(t.drop_last() =~= s.drop_last().update(j, v));
    }
}

proof fn lemma_count_constant(n: nat, c: int, k: int)
    ensures
        count_of(Seq::new(n, |_i: int| c), k) == (if c == k {
            n
        } else {
            0
        }),
    decreases n,
{
    if n > 0 {
        lemma_count_constant((n - 1) as nat, c, k);
        assert(Seq::new(n, |_i: int| c).drop_last() =~= Seq::new((n - 1) as nat, |_i: int| c));
    }
}

proof fn lemma_count_occurs(s: Seq<int>, k: int)
    ensures
        count_of(s, k) > 0 <==> exists|i: int| 0 <= i < s.len() && s[i] == k,
    decreases s.len(),
{
    if s.len() > 0 {
        lemma_count_occurs(s.drop_last(), k);
        if count_of(s.drop_last(), k) > 0 {
            let i = choose|i: int| 0 <= i < s.drop_last().len() && s.drop_last()[i] == k;
            assert(s[i] == k);
        }
        if exists|i: int| 0 <= i < s.len() && s[i] == k {
            let i = choose|i: int| 0 <= i < s.len() && s[i] == k;
            if i < s.len() - 1 {
                assert(s.drop_last()[i] == k);
            }
        }
    }
}

/// If each of `0 .. m` occurs in `s`, and so does `-1`, then `s` has more than `m` items.
proof fn lemma_occurring_range_bound(s: Seq<int>, m: int, j: int)
    requires
        0 <= m,
        0 <= j < s.len(),
        s[j] == -1,
        forall|k: int| 0 <= k < m ==> #[trigger] count_of(s, k) > 0,
    ensures
        m < s.len(),
{
    let set = s.to_set();
    s.lemma_cardinality_of_set();
    lemma_int_range(0, m);
    assert(set_int_range(0, m).subset_of(set.remove(-1))) by {
        assert forall|k: int| set_int_range(0, m).contains(k) implies set.remove(-1).contains(
            k,
        ) by {
            assert(count_of(s, k) > 0);
            lemma_count_occurs(s, k);
            let i = choose|i: int| 0 <= i < s.len() && s[i] == k;
            assert(set.contains(s[i]));
        }
    }
    assert(set.contains(s[j]));
    vstd::seq_lib::seq_to_set_is_finite(s);
    lemma_len_subset(set_int_range(0, m), set.remove(-1));
}

/// Data attached to a block.
#[derive(Clone, Debug, PartialEq, Eq)]
pub enum BlockData {
    Text(String),
}

/// A block: its type and, for some types, some data.
#[derive(Clone, Debug, PartialEq, Eq)]
pub struct Block {
    pub type_id: BlockTypeId,
    pub data: Option<BlockData>,
}

/// What a block is, as plain values: its type id and its text, if it has one.
pub type BlockModel = (BlockTypeId, Option<Seq<char>>);

/// A block of air, with no data.
pub open spec fn air_model() -> BlockModel {
    (BlockTypeTable::AIR_ID, None)
}

pub open spec fn data_model(data: Option<BlockData>) -> Option<Seq<char>> {
    match data {
        Some(BlockData::Text(text)) => Some(text@),
        None => None,
    }
}

impl BlockData {
    pub fn duplicate(&self) -> (r: BlockData)
        ensures
            data_model(Some(r)) == data_model(Some(*self)),
    {
        match self {
            BlockData::Text(text) => BlockData::Text(text.clone()),
        }
    }
}

impl From<BlockTypeId> for Block {
    fn from(type_id: BlockTypeId) -> (r: Block) {
        Block { type_id, data: None }
    }
}

impl vstd::std_specs::convert::FromSpecImpl<BlockTypeId> for Block {
    open spec fn obeys_from_spec() -> bool {
        true
    }

    open spec fn from_spec(type_id: BlockTypeId) -> Block {
        Block { type_id, data: None }
    }
}

impl Block {
    pub open spec fn model(&self) -> BlockModel {
        (self.type_id, data_model(self.data))
    }

    pub fn new_air() -> (r: Block)
        ensures
            r.model() == air_model(),
    {
        Block { type_id: BlockTypeTable::AIR_ID, data: None }
    }

    pub fn as_view(&self) -> (r: BlockView<'_>)
        ensures
            r.model() == self.model(),
    {
        BlockView {
            type_id: self.type_id,
            data: match &self.data {
                Some(data) => Some(data),
                None => None,
            },
        }
    }

    /// A copy of the block.
    pub fn duplicate(&self) -> (r: Block)
        ensures
            r.model() == self.model(),
    {
        Block {
            type_id: self.type_id,
            data: match &self.data {
                Some(data) => Some(data.duplicate()),
                None => None,
            },
        }
    }

    /// Whether the two blocks are the same block (same type, same data).
    pub fn same_as(&self, other: &Block) -> (r: bool)
        ensures
            r == (self.model() == other.model()),
    {
        if self.type_id != other.type_id {
            return false;
        }
        match (&self.data, &other.data) {
            (None, None) => true,
            (Some(BlockData::Text(a)), Some(BlockData::Text(b))) => a.eq(b),
            _ => false,
        }
    }
}

/// A block, borrowing its data.
pub struct BlockView<'a> {
    pub type_id: BlockTypeId,
    pub data: Option<&'a BlockData>,
}

impl<'a> BlockView<'a> {
    pub open spec fn model(&self) -> BlockModel {
        (
            self.type_id,
            match self.data {
                Some(data) => data_model(Some(*data)),
                None => None,
            },
        )
    }

    pub fn new_air() -> (r: BlockView<'a>)
        ensures
            r.model() == air_model(),
    {
        BlockView { type_id: BlockTypeTable::AIR_ID, data: None }
    }

    pub fn as_owned_block(&self) -> (r: Block)
        ensures
            r.model() == self.model(),
    {
        Block {
            type_id: self.type_id,
            data: match self.data {
                Some(data) => Some(data.duplicate()),
                None => None,
            },
        }
    }
}

/// `2^n` grows with `n`.
proof fn lemma_pow2_monotone(a: nat, b: nat)
    requires
        a <= b,
    ensures
        pow2(a) <= pow2(b),
    decreases b,
{
    if a < b {
        lemma_pow2_monotone(a, (b - 1) as nat);
    }
}

proof fn lemma_pow2_31()
    ensures
        pow2(31) == 0x8000_0000,
        pow2(32) == 0x1_0000_0000,
{
    reveal_with_fuel(pow2, 33);
}

proof fn lemma_count_all(s: Seq<int>, k: int)
    requires
        count_of(s, k) == s.len(),
    ensures
        forall|i: int| 0 <= i < s.len() ==> s[i] == k,
    decreases s.len(),
{
    if s.len() > 0 {
        lemma_count_bound(s.drop_last(), k);
        lemma_count_all(s.drop_last(), k);
        assert forall|i: int| 0 <= i < s.len() implies s[i] == k by {
            if i < s.len() - 1 {
                assert(s.drop_last()[i] == k);
            }
        }
    }
}

proof fn lemma_count_bound(s: Seq<int>, k: int)
    ensures
        count_of(s, k) <= s.len(),
    decreases s.len(),
{
    if s.len() > 0 {
        lemma_count_bound(s.drop_last(), k);
    }
}

/// The number of blocks in a chunk of the given span.
pub open spec fn blocks_in(span: ChunkCoordsSpan) -> nat {
    (span.cd.edge * span.cd.edge * span.cd.edge) as nat
}

/// Whether a chunk of the given span can hold its blocks: its corners and the indices of its
/// blocks are computed in `i32`, and its grid of keys holds in a bit vector even with keys of
/// 32 bits.
pub open spec fn chunk_span_ok(span: ChunkCoordsSpan) -> bool {
    &&& span.fits()
    &&& 0 <= span.cd.edge
    &&& span.cd.edge * span.cd.edge * span.cd.edge <= i32::MAX
    &&& blocks_in(span) * 32 <= usize::MAX / 8
}

/// An entry in the palette of a chunk: a block and the number of blocks of the chunk that
/// refer to it.
struct BlockPaletteEntry {
    instance_count: u32,
    block: Block,
}

/// The key of an entry of the palette.
pub type PaletteKey = u32;

/// The blocks of a chunk, stored in a palette-compressed way.
///
/// The blocks themselves are in a palette, with no duplicates, and the grid of the chunk is a
/// grid of keys of the palette, each key written on `block_key_size_in_bits` bits. The number
/// of bits of the keys grows as needed. As long as no non-air block is placed, nothing is
/// allocated: an empty grid stands for a chunk full of air.
pub struct ChunkBlocks {
    coords_span: ChunkCoordsSpan,
    /// The keys of the blocks of the grid, each on `block_key_size_in_bits` bits (empty when
    /// the chunk is full of air and nothing was allocated).
    block_keys_grid: BitBuffer,
    block_key_size_in_bits: usize,
    /// The palette, indexed by key; the keys that are not in use have no entry.
    palette: Vec<Option<BlockPaletteEntry>>,
    /// The smallest key that was never used.
    next_never_used_palette_key: PaletteKey,
    /// The keys that were used before and are free again.
    available_palette_keys: Vec<PaletteKey>,
    /// Whether the blocks changed since the chunk was generated.
    modified_since_generation: bool,
    /// The key of the air block, if it is in the palette.
    air_key: Option<PaletteKey>,
}

impl ChunkBlocks {
    /// The number of blocks of the chunk.
    closed spec fn n(self) -> nat {
        blocks_in(self.coords_span)
    }

    /// The number of bits of each key.
    closed spec fn s(self) -> nat {
        self.block_key_size_in_bits as nat
    }

    /// The keys written in the grid.
    closed spec fn grid_keys(self) -> Seq<int> {
        Seq::new(
            self.n(),
            |i: int| slot_value(bits_of(self.block_keys_grid), self.s(), i) as int,
        )
    }

    /// The grid is either empty (nothing allocated) or holds the keys of all the blocks.
    closed spec fn grid_ok(self) -> bool {
        &&& chunk_span_ok(self.coords_span)
        &&& if self.s() == 0 {
            &&& bits_of(self.block_keys_grid).len() == 0
            &&& self.palette@.len() == 0
            &&& self.next_never_used_palette_key == 0
            &&& self.available_palette_keys@.len() == 0
            &&& self.air_key is None
        } else {
            &&& 1 <= self.s() <= 32
            &&& 0 < self.n()
            &&& bits_of(self.block_keys_grid).len() == self.n() * self.s()
        }
    }

    /// The palette is consistent with the keys of `keys` (where `-1` stands for a block being
    /// replaced), except that the key `reserved`, if any, is neither in use nor available.
    closed spec fn palette_ok(self, keys: Seq<int>, reserved: Option<int>) -> bool {
        let p = self.palette@;
        let avail = self.available_palette_keys@;
        &&& keys.len() == self.n()
        &&& p.len() == self.next_never_used_palette_key
        &&& forall|i: int|
            0 <= i < keys.len() ==> keys[i] == -1 || (0 <= #[trigger] keys[i] < p.len()
                && p[keys[i]] is Some)
        &&& forall|k: int|
            0 <= k < p.len() ==> (#[trigger] p[k] is Some ==> (p[k].unwrap().instance_count
                == count_of(keys, k) && p[k].unwrap().instance_count > 0))
        &&& forall|k: int|
            0 <= k < p.len() ==> ((#[trigger] p[k] is None) <==> (avail.contains(k as u32)
                || reserved == Some(k)))
        &&& reserved matches Some(r) ==> 0 <= r < p.len() && !avail.contains(r as u32)
        &&& avail.no_duplicates()
        &&& forall|j: int| 0 <= j < avail.len() ==> #[trigger] avail[j] < p.len()
        &&& forall|k1: int, k2: int|
            0 <= k1 < p.len() && 0 <= k2 < p.len() && k1 != k2 && #[trigger] p[k1] is Some
                && #[trigger] p[k2] is Some ==> p[k1].unwrap().block.model()
                != p[k2].unwrap().block.model()
        &&& self.air_key matches Some(k) ==> (k < p.len() && p[k as int] is Some && p[k as int].unwrap().block.type_id == BlockTypeTable::AIR_ID)
    }

    /// Every key of the palette fits the number of bits per key.
    closed spec fn palette_fits(self) -> bool {
        self.palette@.len() <= pow2(self.s())
    }

    /// The well-formedness of the chunk's blocks.
    pub closed spec fn wf(self) -> bool {
        &&& self.grid_ok()
        &&& self.palette_fits()
        &&& self.s() > 0 ==> self.palette_ok(self.grid_keys(), None)
    }

    /// The span of the chunk.
    pub closed spec fn span(self) -> ChunkCoordsSpan {
        self.coords_span
    }

    /// The span of well-formed blocks holds them, and their number is that of the span.
    pub proof fn lemma_span_ok(self)
        requires
            self.wf(),
        ensures
            chunk_span_ok(self.span()),
            self@.len() == blocks_in(self.span()),
            !self.allocated() ==> self@ == Seq::new(blocks_in(self.span()), |_i: int| air_model()),
    {
        if !self.allocated() {
            assert(self@ =~= Seq::new(blocks_in(self.span()), |_i: int| air_model()));
        }
    }

    /// Whether the blocks changed since the chunk was generated.
    pub closed spec fn modified(self) -> bool {
        self.modified_since_generation
    }

    /// Whether the grid of keys was allocated (else the chunk is full of plain air).
    pub closed spec fn allocated(self) -> bool {
        self.s() > 0
    }

    /// Every block of type air in the palette is plain air (it has no data), and it is the
    /// entry that the chunk keeps as its air entry (so there is at most one).
    pub closed spec fn air_is_plain(self) -> bool {
        forall|k: int|
            0 <= k < self.palette@.len() && #[trigger] self.palette@[k] is Some
                && self.palette@[k].unwrap().block.type_id == BlockTypeTable::AIR_ID
                ==> self.palette@[k].unwrap().block.model() == air_model() && (self.air_key matches Some(
                a) && a as int == k)
    }

    /// The blocks of the chunk, by internal index (see `ChunkCoordsSpan::internal_index`).
    pub closed spec fn view(self) -> Seq<BlockModel> {
        Seq::new(
            self.n(),
            |i: int|
                if self.s() == 0 {
                    air_model()
                } else {
                    self.palette@[self.grid_keys()[i]].unwrap().block.model()
                },
        )
    }

    proof fn lemma_grid_len_bound(self)
        requires
            self.grid_ok(),
        ensures
            self.n() * self.s() <= self.n() * 32 <= usize::MAX / 8,
    {
        let n = self.n();
        let s = self.s();
        assert(n * s <= n * 32) by (nonlinear_arith)
            requires
                s <= 32,
        ;
    }

    proof fn lemma_allocated_iff_grid_not_empty(self)
        requires
            self.grid_ok(),
        ensures
            (bits_of(self.block_keys_grid).len() == 0) == (self.s() == 0),
    {
        if self.s() > 0 {
            assert(self.n() * self.s() > 0) by (nonlinear_arith)
                requires
                    self.n() > 0,
                    self.s() > 0,
            ;
        }
    }

    /// A chunk full of air, that allocated nothing yet.
    pub fn new_empty(coords_span: ChunkCoordsSpan) -> (r: ChunkBlocks)
        requires
            chunk_span_ok(coords_span),
        ensures
            r.wf(),
            r.span() == coords_span,
            !r.modified(),
            !r.allocated(),
            r.air_is_plain(),
            r@ == Seq::new(blocks_in(coords_span), |_i: int| air_model()),
    {
        let r = ChunkBlocks {
            coords_span,
            block_keys_grid: crate::bits::bitvec_new(),
            block_key_size_in_bits: 0,
            palette: Vec::new(),
            next_never_used_palette_key: 0,
            available_palette_keys: Vec::new(),
            modified_since_generation: false,
            air_key: None,
        };
        assert(r@ =~= Seq::new(blocks_in(coords_span), |_i: int| air_model()));
        r
    }

    pub fn coords_span(&self) -> (r: ChunkCoordsSpan)
        ensures
            r == self.span(),
    {
        self.coords_span
    }

    fn number_of_blocks(&self) -> (r: usize)
        requires
            chunk_span_ok(self.coords_span),
        ensures
            r == self.n(),
    {
        self.coords_span.cd.number_of_blocks_in_a_chunk()
    }

    /// Whether the key can be written on the current number of bits per key.
    fn does_the_key_fit(&self, key: PaletteKey) -> (r: bool)
        ensures
            r == (self.s() >= 1 && key < pow2(self.s())),
    {
        let log = crate::chunk_blocks::checked_ilog2_u32(key);
        proof {
            if let Some(l) = log {
                if l >= 32 {
                    lemma_pow2_31();
                    lemma_pow2_monotone(32, l as nat);
                }
            }
        }
        let key_can_fit_in_that_many_bits: usize = match log {
            Some(l) => l as usize + 1,
            None => 1,
        };
        proof {
            let s = self.s();
            if s >= 1 {
                match log {
                    Some(l) => {
                        if l + 1 <= s {
                            lemma_pow2_monotone((l + 1) as nat, s);
                        } else {
                            lemma_pow2_monotone(s, l as nat);
                        }
                    },
                    None => {
                        lemma_pow2_monotone(0, s);
                    },
                }
            }
        }
        key_can_fit_in_that_many_bits <= self.block_key_size_in_bits
    }

    /// The key of the block at the given internal index.
    fn get_block_key_from_grid(&self, internal_index: usize) -> (r: PaletteKey)
        requires
            self.grid_ok(),
            self.s() > 0,
            internal_index < self.n(),
        ensures
            r == self.grid_keys()[internal_index as int],
    {
        let s = self.block_key_size_in_bits;
        proof {
            lemma_slot_bounds(self.s(), self.n(), internal_index as int);
            self.lemma_grid_len_bound();
        }
        let index_inf = internal_index * s;
        let index_sup_excluded = index_inf + s;
        bitvec_load_le_u32(&self.block_keys_grid, index_inf, index_sup_excluded)
    }

    /// Writes the key of the block at the given internal index (the key must fit the current
    /// number of bits per key).
    fn set_block_key_to_grid(&mut self, internal_index: usize, key: PaletteKey)
        requires
            old(self).grid_ok(),
            old(self).s() > 0,
            internal_index < old(self).n(),
            key < pow2(old(self).s()),
        ensures
            final(self).grid_ok(),
            final(self).grid_keys() == old(self).grid_keys().update(internal_index as int, key as int),
            final(self).coords_span == old(self).coords_span,
            final(self).block_key_size_in_bits == old(self).block_key_size_in_bits,
            final(self).palette == old(self).palette,
            final(self).next_never_used_palette_key == old(self).next_never_used_palette_key,
            final(self).available_palette_keys == old(self).available_palette_keys,
            final(self).modified_since_generation == old(self).modified_since_generation,
            final(self).air_key == old(self).air_key,
    {
        let s = self.block_key_size_in_bits;
        proof {
            lemma_slot_bounds(self.s(), self.n(), internal_index as int);
            self.lemma_grid_len_bound();
            lemma_store_slot(
                bits_of(self.block_keys_grid),
                self.s(),
                self.n(),
                internal_index as int,
                key as nat,
            );
        }
        let ghost old_self = *self;
        let index_inf = internal_index * s;
        let index_sup_excluded = index_inf + s;
        bitvec_store_le_u32(&mut self.block_keys_grid, index_inf, index_sup_excluded, key);
        assert(self.grid_keys() =~= old_self.grid_keys().update(internal_index as int, key as int));
    }
}

/// Writing `x` over the bits `a .. b` leaves the bits before `a` and from `b` on unchanged.
proof fn lemma_store_frame(bits: Seq<bool>, a: int, b: int, x: Seq<bool>, c: int, d: int)
    requires
        0 <= a <= b <= bits.len(),
        x.len() == b - a,
        0 <= c <= d,
        d <= a || (b <= c && d <= bits.len()),
    ensures
        (bits.subrange(0, a) + x + bits.subrange(b, bits.len() as int)).subrange(c, d)
            == bits.subrange(c, d),
{
    let b2 = bits.subrange(0, a) + x + bits.subrange(b, bits.len() as int);
    assert(b2.subrange(c, d) =~= bits.subrange(c, d));
}

impl ChunkBlocks {
    /// Allocates the palette (with just air in it) and the grid (all of it air), keys on one
    /// bit.
    fn allocate_for_the_first_time_and_fill_with_air(&mut self)
        requires
            old(self).wf(),
            !old(self).allocated(),
            old(self).n() > 0,
        ensures
            final(self).wf(),
            final(self).allocated(),
            final(self)@ == old(self)@,
            final(self).coords_span == old(self).coords_span,
            final(self).modified_since_generation == old(self).modified_since_generation,
            final(self).air_is_plain(),
    {
        let ghost old_view = self@;
        let key: PaletteKey = 0;
        self.next_never_used_palette_key = 1;
        let n = self.number_of_blocks();
        self.palette.push(
            Some(BlockPaletteEntry { instance_count: n as u32, block: Block::new_air() }),
        );
        self.air_key = Some(key);
        self.block_key_size_in_bits = 1;
        self.block_keys_grid = bitvec_repeat(false, n * 1);
        proof {
            reveal_with_fuel(pow2, 2);
            let bits = bits_of(self.block_keys_grid);
            assert forall|i: int| 0 <= i < n implies #[trigger] self.grid_keys()[i] == 0 by {
                reveal_with_fuel(bits_value, 2);
                assert(slot(bits, 1, i).len() == 1);
                assert(!slot(bits, 1, i)[0]);
            }
            assert(self.grid_keys() =~= Seq::new(n as nat, |_i: int| 0int));
            lemma_count_constant(n as nat, 0, 0);
            assert(self@ =~= old_view);
            assert(self.palette@.len() == 1);
        }
    }

    /// Makes the keys one bit larger, moving each key of the grid to its new place.
    fn add_a_bit_to_block_key_size(&mut self)
        requires
            old(self).grid_ok(),
            1 <= old(self).s() < 32,
        ensures
            final(self).grid_ok(),
            final(self).s() == old(self).s() + 1,
            final(self).grid_keys() == old(self).grid_keys(),
            final(self).coords_span == old(self).coords_span,
            final(self).palette == old(self).palette,
            final(self).next_never_used_palette_key == old(self).next_never_used_palette_key,
            final(self).available_palette_keys == old(self).available_palette_keys,
            final(self).modified_since_generation == old(self).modified_since_generation,
            final(self).air_key == old(self).air_key,
    {
        let ghost old_bits = bits_of(self.block_keys_grid);
        let ghost old_keys = self.grid_keys();
        // First we resize the bit vector.
        let old_key_size = self.block_key_size_in_bits;
        self.block_key_size_in_bits = old_key_size + 1;
        let new_key_size = self.block_key_size_in_bits;
        let n = self.number_of_blocks();
        proof {
            assert(n * old_key_size < n * new_key_size <= n * 32) by (nonlinear_arith)
                requires
                    0 < n,
                    old_key_size < new_key_size <= 32,
            ;
        }
        let new_len = n * new_key_size;
        bitvec_resize(&mut self.block_keys_grid, new_len, false);
        proof {
            let bits = bits_of(self.block_keys_grid);
            assert forall|j: int| 0 <= j < n implies #[trigger] slot(bits, old_key_size as nat, j)
                == slot(old_bits, old_key_size as nat, j) by {
                lemma_slot_bounds(old_key_size as nat, n as nat, j);
                assert(slot(bits, old_key_size as nat, j) =~= slot(old_bits, old_key_size as nat, j));
            }
        }
        // Then we move each key to its new place, from the last one, so that no key is
        // overwritten before it is moved.
        let mut i: usize = n;
        while i > 0
            invariant
                self.grid_ok(),
                self.block_key_size_in_bits == new_key_size,
                new_key_size == old_key_size + 1,
                1 <= old_key_size < 32,
                n == self.n(),
                i <= n,
                old_keys.len() == n,
                old_bits.len() == n * old_key_size,
                forall|j: int|
                    0 <= j < n ==> #[trigger] old_keys[j] == slot_value(old_bits, old_key_size as nat, j),
                forall|j: int|
                    0 <= j < i ==> #[trigger] slot(bits_of(self.block_keys_grid), old_key_size as nat, j)
                        == slot(old_bits, old_key_size as nat, j),
                forall|j: int|
                    i <= j < n ==> #[trigger] slot_value(bits_of(self.block_keys_grid), new_key_size as nat, j)
                        == old_keys[j],
                self.coords_span == old(self).coords_span,
                self.palette == old(self).palette,
                self.next_never_used_palette_key == old(self).next_never_used_palette_key,
                self.available_palette_keys == old(self).available_palette_keys,
                self.modified_since_generation == old(self).modified_since_generation,
                self.air_key == old(self).air_key,
            decreases i,
        {
            i = i - 1;
            let ghost bits = bits_of(self.block_keys_grid);
            proof {
                lemma_slot_bounds(old_key_size as nat, n as nat, i as int);
                lemma_slot_bounds(new_key_size as nat, n as nat, i as int);
                assert(i * old_key_size <= i * new_key_size) by (nonlinear_arith)
                    requires
                        old_key_size < new_key_size,
                ;
                self.lemma_grid_len_bound();
            }
            let key: PaletteKey = {
                let index_inf = i * old_key_size;
                let index_sup_excluded = index_inf + old_key_size;
                bitvec_load_le_u32(&self.block_keys_grid, index_inf, index_sup_excluded)
            };
            proof {
                assert(slot(bits, old_key_size as nat, i as int) == slot(old_bits, old_key_size as nat, i as int));
                assert(key == old_keys[i as int]);
                lemma_bits_value_bound(slot(old_bits, old_key_size as nat, i as int));
                lemma_pow2_monotone(old_key_size as nat, new_key_size as nat);
                lemma_bits_value_of_low_bits(key as nat, new_key_size as nat);
            }
            let index_inf = i * new_key_size;
            let index_sup_excluded = index_inf + new_key_size;
            bitvec_store_le_u32(&mut self.block_keys_grid, index_inf, index_sup_excluded, key);
            proof {
                let x = low_bits(key as nat, new_key_size as nat);
                let a = index_inf as int;
                let b = index_sup_excluded as int;
                let b2 = bits_of(self.block_keys_grid);
                assert(b2 == bits.subrange(0, a) + x + bits.subrange(b, bits.len() as int));
                assert forall|j: int| 0 <= j < i implies #[trigger] slot(
                    bits_of(self.block_keys_grid),
                    old_key_size as nat,
                    j,
                ) == slot(old_bits, old_key_size as nat, j) by {
                    assert(j * old_key_size + old_key_size <= i * old_key_size) by (nonlinear_arith)
                        requires
                            j < i,
                    ;
                    lemma_slot_bounds(old_key_size as nat, n as nat, j);
                    assert(slot(bits, old_key_size as nat, j) == slot(old_bits, old_key_size as nat, j));
                    lemma_store_frame(
                        bits,
                        a,
                        b,
                        x,
                        j * old_key_size,
                        j * old_key_size + old_key_size,
                    );
                }
                assert(slot(b2, new_key_size as nat, i as int) =~= x);
                assert forall|j: int| i < j < n implies #[trigger] slot_value(
                    bits_of(self.block_keys_grid),
                    new_key_size as nat,
                    j,
                ) == old_keys[j] by {
                    assert(i * new_key_size + new_key_size <= j * new_key_size) by (nonlinear_arith)
                        requires
                            i < j,
                    ;
                    lemma_slot_bounds(new_key_size as nat, n as nat, j);
                    assert(slot_value(bits, new_key_size as nat, j) == old_keys[j]);
                    lemma_store_frame(
                        bits,
                        a,
                        b,
                        x,
                        j * new_key_size,
                        j * new_key_size + new_key_size,
                    );
                }
            }
        }
        proof {
            assert(self.grid_keys() =~= old_keys);
        }
    }
}

impl ChunkBlocks {
    /// A key that is not in use (and that must be used now, or it is lost), that fits the
    /// number of bits per key, which grows if needed.
    fn get_new_key(&mut self, Ghost(keys): Ghost<Seq<int>>, Ghost(j): Ghost<int>) -> (r:
        PaletteKey)
        requires
            old(self).grid_ok(),
            old(self).s() > 0,
            old(self).palette_ok(keys, None),
            old(self).palette_fits(),
            0 <= j < keys.len(),
            keys[j] == -1,
        ensures
            final(self).grid_ok(),
            final(self).palette_fits(),
            final(self).s() >= old(self).s(),
            final(self).grid_keys() == old(self).grid_keys(),
            final(self).palette_ok(keys, Some(r as int)),
            r < pow2(final(self).s()),
            final(self).palette@.len() >= old(self).palette@.len(),
            final(self).palette@.len() <= old(self).palette@.len() + 1,
            final(self).palette@.len() > old(self).palette@.len() ==> r == old(self).palette@.len(),
            forall|k: int|
                0 <= k < old(self).palette@.len() ==> #[trigger] final(self).palette@[k]
                    == old(self).palette@[k],
            final(self).coords_span == old(self).coords_span,
            final(self).modified_since_generation == old(self).modified_since_generation,
            final(self).air_key == old(self).air_key,
    {
        match self.available_palette_keys.pop() {
            Some(new_key) => {
                // A key that was used before is available again.
                proof {
                    let avail = old(self).available_palette_keys@;
                    let avail2 = self.available_palette_keys@;
                    assert(avail2 =~= avail.drop_last());
                    assert(new_key == avail[avail.len() - 1]);
                    assert forall|k: int| 0 <= k < self.palette@.len() implies ((
                    #[trigger] self.palette@[k] is None) <==> (avail2.contains(k as u32) || Some(
                        new_key as int,
                    ) == Some(k))) by {
                        if avail.contains(k as u32) && k != new_key as int {
                            let t = choose|t: int| 0 <= t < avail.len() && avail[t] == k as u32;
                            assert(t != avail.len() - 1);
                            assert(avail2[t] == k as u32);
                        }
                        if avail2.contains(k as u32) {
                            let t = choose|t: int| 0 <= t < avail2.len() && avail2[t] == k as u32;
                            assert(avail[t] == k as u32);
                        }
                        if k == new_key as int {
                            assert(avail[avail.len() - 1] == k as u32);
                        }
                    }
                    assert(!avail2.contains(new_key)) by {
                        if avail2.contains(new_key) {
                            let t = choose|t: int| 0 <= t < avail2.len() && avail2[t] == new_key;
                            assert(avail[t] == new_key);
                            assert(avail[avail.len() - 1] == new_key);
                        }
                    }
                    assert(new_key < self.palette@.len());
                }
                new_key
            },
            None => {
                // No key is available: we take a key never used before.
                let new_key = self.next_never_used_palette_key;
                proof {
                    assert forall|k: int| 0 <= k < self.palette@.len() implies #[trigger] count_of(
                        keys,
                        k,
                    ) > 0 by {
                        assert(self.palette@[k] is Some);
                    }
                    lemma_occurring_range_bound(keys, self.palette@.len() as int, j);
                }
                self.next_never_used_palette_key = new_key + 1;
                self.palette.push(None);
                let ghost s0 = self.s();
                proof {
                    lemma_pow2_31();
                    assert forall|k: int| 0 <= k < self.palette@.len() implies ((
                    #[trigger] self.palette@[k] is None) <==> (
                    self.available_palette_keys@.contains(k as u32) || Some(new_key as int)
                        == Some(k))) by {
                        if k < old(self).palette@.len() {
                            assert(old(self).palette@[k] == self.palette@[k]);
                        }
                    }
                }
                while !self.does_the_key_fit(new_key)
                    invariant
                        self.grid_ok(),
                        self.s() >= s0,
                        self.grid_keys() == old(self).grid_keys(),
                        new_key < pow2(31),
                        self.palette@ == old(self).palette@.push(None),
                        self.palette_ok(keys, Some(new_key as int)),
                        self.coords_span == old(self).coords_span,
                        self.modified_since_generation == old(self).modified_since_generation,
                        self.air_key == old(self).air_key,
                    decreases 32 - self.s(),
                {
                    proof {
                        if self.s() >= 31 {
                            lemma_pow2_monotone(31, self.s());
                        }
                    }
                    self.add_a_bit_to_block_key_size();
                    proof {
                        lemma_pow2_monotone((self.s() - 1) as nat, self.s());
                    }
                }
                new_key
            },
        }
    }
}

impl ChunkBlocks {
    /// Remembers that the key is free again, so that a future new palette entry can take it.
    fn give_back_key_no_longer_in_use(&mut self, key: PaletteKey)
        ensures
            final(self).available_palette_keys@ == old(self).available_palette_keys@.push(key),
            final(self).coords_span == old(self).coords_span,
            final(self).block_keys_grid == old(self).block_keys_grid,
            final(self).block_key_size_in_bits == old(self).block_key_size_in_bits,
            final(self).palette == old(self).palette,
            final(self).next_never_used_palette_key == old(self).next_never_used_palette_key,
            final(self).modified_since_generation == old(self).modified_since_generation,
            final(self).air_key == old(self).air_key,
    {
        self.available_palette_keys.push(key);
    }

    /// Tells the palette that there is one block fewer that refers to `key` (the block at the
    /// internal index `j`, which the grid still holds), removing the entry if no block refers to
    /// it anymore.
    fn remove_one_block_instance_from_palette(
        &mut self,
        key: PaletteKey,
        Ghost(keys): Ghost<Seq<int>>,
        Ghost(j): Ghost<int>,
    )
        requires
            old(self).palette_ok(keys, None),
            0 <= j < keys.len(),
            keys[j] == key,
        ensures
            final(self).palette_ok(keys.update(j, -1), None),
            final(self).palette@.len() == old(self).palette@.len(),
            forall|k: int|
                0 <= k < final(self).palette@.len() && (#[trigger] final(self).palette@[k]) is Some
                    ==> old(self).palette@[k] is Some && final(self).palette@[k].unwrap().block.model()
                    == old(self).palette@[k].unwrap().block.model(),
            final(self).coords_span == old(self).coords_span,
            final(self).block_keys_grid == old(self).block_keys_grid,
            final(self).block_key_size_in_bits == old(self).block_key_size_in_bits,
            final(self).modified_since_generation == old(self).modified_since_generation,
            old(self).air_is_plain() ==> final(self).air_is_plain(),
    {
        let ghost keys2 = keys.update(j, -1);
        proof {
            assert(keys[j] == key as int);
            assert(self.palette@[key as int] is Some);
            lemma_count_update(keys, j, -1, key as int);
            assert forall|k: int| k != key as int && k >= 0 implies #[trigger] count_of(keys2, k) == count_of(keys, k) by {
                lemma_count_update(keys, j, -1, k);
            }
        }
        let index = key as usize;
        let mut slot: Option<BlockPaletteEntry> = None;
        self.palette.set_and_swap(index, &mut slot);
        match slot {
            Some(entry) => {
                let instance_count = entry.instance_count - 1;
                if instance_count == 0 {
                    // No block refers to the entry anymore, it is removed.
                    if entry.block.type_id == BlockTypeTable::AIR_ID {
                        self.air_key = None;
                    }
                    proof {
                        lemma_count_occurs(keys2, key as int);
                        assert(!old(self).available_palette_keys@.contains(key));
                    }
                    self.give_back_key_no_longer_in_use(key);
                    proof {
                        let avail = self.available_palette_keys@;
                        let old_avail = old(self).available_palette_keys@;
                        assert forall|k: int| 0 <= k < self.palette@.len() implies ((
                        #[trigger] self.palette@[k] is None) <==> avail.contains(k as u32)) by {
                            if old_avail.contains(k as u32) {
                                let t = choose|t: int| 0 <= t < old_avail.len() && old_avail[t] == k as u32;
                                assert(avail[t] == k as u32);
                            }
                            if avail.contains(k as u32) && k != key as int {
                                let t = choose|t: int| 0 <= t < avail.len() && avail[t] == k as u32;
                                assert(t < old_avail.len());
                                assert(old_avail[t] == k as u32);
                            }
                            if k == key as int {
                                assert(avail[avail.len() - 1] == key);
                            }
                        }
                        assert forall|i: int| 0 <= i < keys2.len() implies keys2[i] == -1 || (0
                            <= #[trigger] keys2[i] < self.palette@.len() && self.palette@[keys2[i]]
                            is Some) by {
                            if keys2[i] == key as int {
                                assert(count_of(keys2, key as int) > 0) by {
                                    lemma_count_occurs(keys2, key as int);
                                }
                            }
                        }
                    }
                } else {
                    self.palette.set(
                        index,
                        Some(BlockPaletteEntry { instance_count, block: entry.block }),
                    );
                }
            },
            None => {},
        }
        proof {
            if old(self).air_is_plain() {
                assert forall|k: int|
                    0 <= k < self.palette@.len() && #[trigger] self.palette@[k] is Some
                        && self.palette@[k].unwrap().block.type_id == BlockTypeTable::AIR_ID implies self.palette@[k].unwrap().block.model()
                    == air_model() && (self.air_key matches Some(a) && a as int == k) by {
                    assert(old(self).palette@[k] is Some);
                    assert(old(self).palette@[key as int] is Some);
                }
            }
        }
    }

    /// Tells the palette that there is one more block `block` (the one to be written at the
    /// internal index `j`), and returns its key: the key of its entry, which is created if
    /// there is none.
    fn add_one_block_instance_to_palette(
        &mut self,
        block: Block,
        Ghost(keys): Ghost<Seq<int>>,
        Ghost(j): Ghost<int>,
    ) -> (r: PaletteKey)
        requires
            old(self).grid_ok(),
            old(self).s() > 0,
            old(self).palette_ok(keys, None),
            old(self).palette_fits(),
            0 <= j < keys.len(),
            keys[j] == -1,
        ensures
            final(self).grid_ok(),
            final(self).palette_fits(),
            final(self).s() >= old(self).s(),
            final(self).grid_keys() == old(self).grid_keys(),
            final(self).palette_ok(keys.update(j, r as int), None),
            r < pow2(final(self).s()),
            final(self).palette@[r as int] is Some,
            final(self).palette@[r as int].unwrap().block.model() == block.model(),
            final(self).palette@.len() >= old(self).palette@.len(),
            forall|k: int|
                0 <= k < old(self).palette@.len() && (#[trigger] old(self).palette@[k]) is Some
                    ==> final(self).palette@[k] is Some && final(self).palette@[k].unwrap().block.model()
                    == old(self).palette@[k].unwrap().block.model(),
            final(self).coords_span == old(self).coords_span,
            final(self).modified_since_generation == old(self).modified_since_generation,
            old(self).air_is_plain() && (block.type_id == BlockTypeTable::AIR_ID ==> block.model()
                == air_model()) ==> final(self).air_is_plain(),
    {
        // Look for the block in the palette.
        let mut found: Option<usize> = None;
        let mut k: usize = 0;
        while k < self.palette.len()
            invariant
                k <= self.palette@.len(),
                *self == *old(self),
                found is None ==> forall|kk: int|
                    0 <= kk < k && (#[trigger] self.palette@[kk]) is Some ==> self.palette@[kk].unwrap().block.model()
                        != block.model(),
                found matches Some(f) ==> f < self.palette@.len() && self.palette@[f as int] is Some
                    && self.palette@[f as int].unwrap().block.model() == block.model(),
            decreases self.palette@.len() - k,
        {
            if found.is_none() {
                match &self.palette[k] {
                    Some(entry) => {
                        if entry.block.same_as(&block) {
                            found = Some(k);
                        }
                    },
                    None => {},
                }
            }
            k = k + 1;
        }
        let ghost p0 = self.palette@;
        assert(found is None ==> forall|kk: int|
            0 <= kk < p0.len() && (#[trigger] p0[kk]) is Some ==> p0[kk].unwrap().block.model()
                != block.model());
        match found {
            Some(index) => {
                // The block is already in the palette.
                let ghost key = index as int;
                proof {
                    lemma_count_update(keys, j, key, key);
                    lemma_count_bound(keys.update(j, key), key);
                    assert forall|k: int| k != key && k >= 0 implies #[trigger] count_of(keys.update(j, key), k)
                        == count_of(keys, k) by {
                        lemma_count_update(keys, j, key, k);
                    }
                }
                let mut slot: Option<BlockPaletteEntry> = None;
                self.palette.set_and_swap(index, &mut slot);
                match slot {
                    Some(entry) => {
                        self.palette.set(
                            index,
                            Some(
                                BlockPaletteEntry {
                                    instance_count: entry.instance_count + 1,
                                    block: entry.block,
                                },
                            ),
                        );
                    },
                    None => {},
                }
                proof {
                    assert(index < pow2(self.s()));
                    if old(self).air_is_plain() {
                        assert forall|k: int|
                            0 <= k < self.palette@.len() && #[trigger] self.palette@[k] is Some
                                && self.palette@[k].unwrap().block.type_id == BlockTypeTable::AIR_ID implies self.palette@[k].unwrap().block.model()
                            == air_model() && (self.air_key matches Some(a) && a as int == k) by {
                            assert(old(self).palette@[k] is Some);
                        }
                    }
                }
                index as PaletteKey
            },
            None => {
                // The block gets a new entry, under a new key.
                let key = self.get_new_key(Ghost(keys), Ghost(j));
                let ghost keys2 = keys.update(j, key as int);
                proof {
                    lemma_count_occurs(keys, key as int);
                    lemma_count_update(keys, j, key as int, key as int);
                    assert forall|k: int| k != key as int && k >= 0 implies #[trigger] count_of(keys2, k)
                        == count_of(keys, k) by {
                        lemma_count_update(keys, j, key as int, k);
                    }
                }
                if block.type_id == BlockTypeTable::AIR_ID {
                    self.air_key = Some(key);
                }
                self.palette.set(key as usize, Some(BlockPaletteEntry { instance_count: 1, block }));
                proof {
                    let p = self.palette@;
                    assert forall|k1: int, k2: int|
                        0 <= k1 < p.len() && 0 <= k2 < p.len() && k1 != k2 && #[trigger] p[k1] is Some
                            && #[trigger] p[k2] is Some implies p[k1].unwrap().block.model()
                        != p[k2].unwrap().block.model() by {
                        if k1 != key as int && k2 != key as int && k1 < old(self).palette@.len() && k2 < old(self).palette@.len() {
                            assert(p[k1] == old(self).palette@[k1]);
                        }
                        if k1 == key as int {
                            assert(k2 < old(self).palette@.len());
                            assert(p0[k2] is Some);
                        }
                        if k2 == key as int {
                            assert(k1 < old(self).palette@.len());
                            assert(p0[k1] is Some);
                        }
                    }
                    if old(self).air_is_plain() && (block.type_id == BlockTypeTable::AIR_ID
                        ==> block.model() == air_model()) {
                        assert forall|k: int|
                            0 <= k < p.len() && #[trigger] p[k] is Some
                                && p[k].unwrap().block.type_id == BlockTypeTable::AIR_ID implies p[k].unwrap().block.model()
                            == air_model() && (self.air_key matches Some(a) && a as int == k) by {
                            if k != key as int {
                                assert(k < old(self).palette@.len());
                                assert(p0[k] is Some);
                                assert(old(self).palette@[k] == p0[k]);
                            }
                        }
                    }
                }
                key
            },
        }
    }
}

/// What reading the block at `coords` gives, in a chunk of the given span and blocks.
pub open spec fn get_spec(blocks: Seq<BlockModel>, span: ChunkCoordsSpan, coords: Point3i) -> Option<
    BlockModel,
> {
    match span.internal_index_spec(coords) {
        Some(i) => Some(blocks[i]),
        None => None,
    }
}

/// The blocks of a chunk of the given span after writing `block` at `coords` (nothing changes
/// if the chunk does not contain `coords`, or if the chunk is full of air and has nothing
/// allocated while the block written is of type air).
pub open spec fn set_spec(
    blocks: Seq<BlockModel>,
    allocated: bool,
    span: ChunkCoordsSpan,
    coords: Point3i,
    block: BlockModel,
) -> Seq<BlockModel> {
    match span.internal_index_spec(coords) {
        Some(i) => if !allocated && block.0 == BlockTypeTable::AIR_ID {
            blocks
        } else {
            blocks.update(i, block)
        },
        None => blocks,
    }
}

impl ChunkBlocks {
    /// A view on the block at `coords`, or `None` if the chunk does not contain `coords`.
    pub fn get(&self, coords: Point3i) -> (r: Option<BlockView<'_>>)
        requires
            self.wf(),
        ensures
            r is Some <==> self.span().contains_spec(coords),
            r matches Some(v) ==> get_spec(self@, self.span(), coords) == Some(v.model()),
    {
        proof {
            self.lemma_allocated_iff_grid_not_empty();
            if self.coords_span.contains_spec(coords) {
                lemma_internal_index_is_position_in_iteration(self.coords_span, coords);
            }
        }
        let internal_index = match self.coords_span.internal_index(coords) {
            Some(i) => i,
            None => {
                return None;
            },
        };
        if bitvec_is_empty(&self.block_keys_grid) {
            // The chunk has nothing allocated, which stands for being full of air.
            Some(BlockView::new_air())
        } else {
            let key = self.get_block_key_from_grid(internal_index);
            match &self.palette[key as usize] {
                Some(entry) => Some(entry.block.as_view()),
                None => Some(BlockView::new_air()),
            }
        }
    }

    /// Writes `block` at `coords`; does nothing if the chunk does not contain `coords`.
    pub fn set(&mut self, coords: Point3i, block: Block)
        requires
            old(self).wf(),
        ensures
            final(self).wf(),
            final(self).span() == old(self).span(),
            final(self)@ == set_spec(
                old(self)@,
                old(self).allocated(),
                old(self).span(),
                coords,
                block.model(),
            ),
            final(self).modified() == (old(self).modified() || (old(self).span().contains_spec(
                coords,
            ) && (old(self).allocated() || block.type_id != BlockTypeTable::AIR_ID))),
            final(self).allocated() == (old(self).allocated() || (old(self).span().contains_spec(
                coords,
            ) && block.type_id != BlockTypeTable::AIR_ID)),
            old(self).air_is_plain() && (block.type_id == BlockTypeTable::AIR_ID ==> block.data
                is None) ==> final(self).air_is_plain(),
    {
        if self.coords_span.contains(coords) {
            proof {
                lemma_internal_index_is_position_in_iteration(self.coords_span, coords);
                self.lemma_allocated_iff_grid_not_empty();
            }
            if bitvec_is_empty(&self.block_keys_grid) {
                if block.type_id == BlockTypeTable::AIR_ID {
                    // The chunk is full of air already.
                    return;
                } else {
                    self.allocate_for_the_first_time_and_fill_with_air();
                }
            }
            let index = match self.coords_span.internal_index(coords) {
                Some(i) => i,
                None => {
                    return;
                },
            };
            let ghost old_view = self@;
            let ghost old_self = *self;
            let ghost keys = self.grid_keys();
            let key_of_block_to_remove = self.get_block_key_from_grid(index);
            self.remove_one_block_instance_from_palette(
                key_of_block_to_remove,
                Ghost(keys),
                Ghost(index as int),
            );
            let ghost mid_self = *self;
            let key_of_block_being_added = self.add_one_block_instance_to_palette(
                block,
                Ghost(keys.update(index as int, -1)),
                Ghost(index as int),
            );
            self.set_block_key_to_grid(index, key_of_block_being_added);
            self.modified_since_generation = true;
            proof {
                let new_keys = keys.update(index as int, key_of_block_being_added as int);
                assert(self.grid_keys() =~= new_keys);
                assert(keys.update(index as int, -1).update(index as int, key_of_block_being_added as int)
                    =~= new_keys);
                assert forall|i: int| 0 <= i < self.n() implies #[trigger] self@[i] == old_view.update(
                    index as int,
                    block.model(),
                )[i] by {
                    if i != index as int {
                        let k = keys[i];
                        assert(old_self.palette@[k] is Some);
                        assert(keys.update(index as int, -1)[i] == k);
                        assert(mid_self.palette@[k] is Some);
                    }
                }
                assert(self@ =~= old_view.update(index as int, block.model()));
            }
        }
    }

    /// Whether the chunk has nothing allocated, or its air entry is referred to by all of its
    /// blocks.
    pub closed spec fn contains_only_air_spec(self) -> bool {
        !self.allocated() || (self.air_key matches Some(k) && self.palette@[k as int] is Some
            && self.palette@[k as int].unwrap().instance_count == self.n())
    }

    /// Whether the chunk is full of air (only a look-up, no counting).
    pub fn contains_only_air(&self) -> (r: bool)
        requires
            self.wf(),
        ensures
            r == self.contains_only_air_spec(),
            !self.allocated() ==> r,
            r ==> forall|i: int| 0 <= i < self@.len() ==> (#[trigger] self@[i]).0 == BlockTypeTable::AIR_ID,
            self.air_is_plain() && (forall|i: int|
                0 <= i < self@.len() ==> (#[trigger] self@[i]).0 == BlockTypeTable::AIR_ID) ==> r,
    {
        proof {
            self.lemma_allocated_iff_grid_not_empty();
        }
        if bitvec_is_empty(&self.block_keys_grid) {
            // Having nothing allocated stands for being full of air.
            true
        } else {
            proof {
                if self.air_is_plain() && (forall|i: int|
                    0 <= i < self@.len() ==> (#[trigger] self@[i]).0 == BlockTypeTable::AIR_ID) {
                    self.lemma_only_air_means_all_keys_are_the_air_key();
                }
            }
            match self.air_key {
                Some(air_key) => {
                    let air_count = match &self.palette[air_key as usize] {
                        Some(entry) => entry.instance_count,
                        None => 0,
                    };
                    let block_count = self.number_of_blocks() as u32;
                    proof {
                        if air_count == block_count {
                            lemma_count_all(self.grid_keys(), air_key as int);
                            assert forall|i: int| 0 <= i < self@.len() implies (#[trigger] self@[i]).0
                                == BlockTypeTable::AIR_ID by {
                                assert(self.grid_keys()[i] == air_key as int);
                            }
                        }
                    }
                    air_count == block_count
                },
                None => {
                    // Air is not even in the palette.
                    false
                },
            }
        }
    }

    /// In a chunk whose air is plain and whose blocks are all of type air, every key of the
    /// grid is the air key, which its entry counts once for each block.
    proof fn lemma_only_air_means_all_keys_are_the_air_key(self)
        requires
            self.wf(),
            self.allocated(),
            self.air_is_plain(),
            forall|i: int| 0 <= i < self@.len() ==> (#[trigger] self@[i]).0 == BlockTypeTable::AIR_ID,
        ensures
            self.air_key matches Some(a) && self.palette@[a as int] is Some
                && self.palette@[a as int].unwrap().instance_count == self.n(),
    {
        let keys = self.grid_keys();
        assert(self@[0].0 == BlockTypeTable::AIR_ID);
        let a = keys[0];
        assert(self.palette@[a] is Some);
        assert forall|i: int| 0 <= i < keys.len() implies #[trigger] keys[i] == a by {
            assert(self@[i].0 == BlockTypeTable::AIR_ID);
            assert(self.palette@[keys[i]] is Some);
        }
        assert(keys =~= Seq::new(self.n(), |_i: int| a));
        lemma_count_constant(self.n(), a, a);
    }

    pub fn contains_non_air(&self) -> (r: bool)
        requires
            self.wf(),
        ensures
            r == !self.contains_only_air_spec(),
            !self.allocated() ==> !r,
            !r ==> forall|i: int| 0 <= i < self@.len() ==> (#[trigger] self@[i]).0 == BlockTypeTable::AIR_ID,
            self.air_is_plain() && (forall|i: int|
                0 <= i < self@.len() ==> (#[trigger] self@[i]).0 == BlockTypeTable::AIR_ID) ==> !r,
    {
        !self.contains_only_air()
    }

    pub fn was_modified_since_generation(&self) -> (r: bool)
        ensures
            r == self.modified(),
    {
        self.modified_since_generation
    }
}

/// Reading a block of a chunk after writing it there gives the block written, and writing a
/// block leaves the other blocks of the chunk as they were. (Writing a block of type air in a
/// chunk that has nothing allocated leaves the chunk full of plain air.)
pub proof fn law_get_after_set(
    blocks: Seq<BlockModel>,
    allocated: bool,
    span: ChunkCoordsSpan,
    coords: Point3i,
    block: BlockModel,
    other: Point3i,
)
    requires
        chunk_span_ok(span),
        blocks.len() == blocks_in(span),
    ensures
        span.contains_spec(coords) && (allocated || block.0 != BlockTypeTable::AIR_ID) ==> get_spec(
            set_spec(blocks, allocated, span, coords, block),
            span,
            coords,
        ) == Some(block),
        get_spec(set_spec(blocks, allocated, span, coords, block), span, coords) is Some
            <==> span.contains_spec(coords),
        other != coords ==> get_spec(set_spec(blocks, allocated, span, coords, block), span, other)
            == get_spec(blocks, span, other),
{
    if span.contains_spec(coords) {
        lemma_internal_index_is_position_in_iteration(span, coords);
    }
    if span.contains_spec(other) {
        lemma_internal_index_is_position_in_iteration(span, other);
    }
}

/// A `ChunkBlocks` being generated: however its blocks are modified, the `ChunkBlocks` it gives
/// in the end is not flagged as modified.
pub struct ChunkBlocksBeingGenerated(ChunkBlocks);

impl ChunkBlocksBeingGenerated {
    /// The blocks being generated.
    pub closed spec fn blocks(self) -> ChunkBlocks {
        self.0
    }

    pub fn new_empty(coords_span: ChunkCoordsSpan) -> (r: ChunkBlocksBeingGenerated)
        requires
            chunk_span_ok(coords_span),
        ensures
            r.blocks().wf(),
            r.blocks().span() == coords_span,
            r.blocks().air_is_plain(),
            r.blocks()@ == Seq::new(blocks_in(coords_span), |_i: int| air_model()),
    {
        ChunkBlocksBeingGenerated(ChunkBlocks::new_empty(coords_span))
    }

    pub fn coords_span(&self) -> (r: ChunkCoordsSpan)
        ensures
            r == self.blocks().span(),
    {
        self.0.coords_span()
    }

    pub fn get(&self, coords: Point3i) -> (r: Option<BlockView<'_>>)
        requires
            self.blocks().wf(),
        ensures
            r is Some <==> self.blocks().span().contains_spec(coords),
            r matches Some(v) ==> get_spec(self.blocks()@, self.blocks().span(), coords) == Some(
                v.model(),
            ),
    {
        self.0.get(coords)
    }

    pub fn set(&mut self, coords: Point3i, block: Block)
        requires
            old(self).blocks().wf(),
        ensures
            final(self).blocks().wf(),
            final(self).blocks().span() == old(self).blocks().span(),
            final(self).blocks()@ == set_spec(
                old(self).blocks()@,
                old(self).blocks().allocated(),
                old(self).blocks().span(),
                coords,
                block.model(),
            ),
            final(self).blocks().allocated() == (old(self).blocks().allocated() || (old(
                self,
            ).blocks().span().contains_spec(coords) && block.type_id != BlockTypeTable::AIR_ID)),
            old(self).blocks().air_is_plain() && (block.type_id == BlockTypeTable::AIR_ID
                ==> block.data is None) ==> final(self).blocks().air_is_plain(),
    {
        self.0.set(coords, block);
    }

    pub fn set_id(&mut self, coords: Point3i, block_id: BlockTypeId)
        requires
            old(self).blocks().wf(),
        ensures
            final(self).blocks().wf(),
            final(self).blocks().span() == old(self).blocks().span(),
            final(self).blocks()@ == set_spec(
                old(self).blocks()@,
                old(self).blocks().allocated(),
                old(self).blocks().span(),
                coords,
                (block_id, None),
            ),
            final(self).blocks().allocated() == (old(self).blocks().allocated() || (old(
                self,
            ).blocks().span().contains_spec(coords) && block_id != BlockTypeTable::AIR_ID)),
            old(self).blocks().air_is_plain() ==> final(self).blocks().air_is_plain(),
    {
        self.set(coords, Block::from(block_id));
    }

    /// The generated blocks, not flagged as modified.
    pub fn finish_generation(self) -> (r: ChunkBlocks)
        requires
            self.blocks().wf(),
        ensures
            r.wf(),
            r@ == self.blocks()@,
            r.span() == self.blocks().span(),
            r.allocated() == self.blocks().allocated(),
            r.air_is_plain() == self.blocks().air_is_plain(),
            !r.modified(),
    {
        let mut blocks = self.0;
        blocks.modified_since_generation = false;
        blocks
    }
}

/// What the blocks of a face of a chunk are made of.
#[derive(Debug, Clone, Copy, PartialEq, Eq, Structural)]
pub enum FaceCullingInfo {
    AllAir,
    AllOpaque,
    SomeAirSomeOpaque,
}

/// Information that can be used to decide if some chunks should not be loaded or be unloaded.
#[derive(Debug, Clone, Copy)]
pub struct ChunkCullingInfo {
    /// The faces, in the order of `OrientedAxis::all_the_six_possible_directions`.
    pub faces: [FaceCullingInfo; 6],
}

/// The type of the block at `p` (which must be in the chunk), in the table.
pub open spec fn block_type_at(
    blocks: Seq<BlockModel>,
    span: ChunkCoordsSpan,
    table: Seq<BlockType>,
    p: Point3i,
) -> BlockType {
    table[blocks[span.internal_index_spec(p).unwrap()].0 as int]
}

/// The blocks of the chunk that touch its face towards `face`.
pub open spec fn face_blocks(span: ChunkCoordsSpan, face: OrientedAxis) -> Seq<Point3i> {
    rect_seq(span.face_inf(face), span.face_inf(face).moved(span.face_dims(face.axis)))
}

/// What the blocks of the face of the chunk towards `face` are made of: all air, else all
/// opaque, else some of each.
pub open spec fn face_culling_info_spec(
    blocks: Seq<BlockModel>,
    span: ChunkCoordsSpan,
    table: Seq<BlockType>,
    face: OrientedAxis,
) -> FaceCullingInfo {
    let f = face_blocks(span, face);
    if forall|k: int| 0 <= k < f.len() ==> (#[trigger] block_type_at(blocks, span, table, f[k])) is Air {
        FaceCullingInfo::AllAir
    } else if forall|k: int|
        0 <= k < f.len() ==> (#[trigger] block_type_at(blocks, span, table, f[k])) is Solid {
        FaceCullingInfo::AllOpaque
    } else {
        FaceCullingInfo::SomeAirSomeOpaque
    }
}

/// Whether every block of the chunk has a type of the table.
pub open spec fn types_in_table(blocks: Seq<BlockModel>, table: Seq<BlockType>) -> bool {
    forall|i: int| 0 <= i < blocks.len() ==> (#[trigger] blocks[i]).0 < table.len()
}

/// The blocks that touch a face of the chunk are blocks of the chunk.
proof fn lemma_face_blocks_in_chunk(span: ChunkCoordsSpan, face: OrientedAxis)
    requires
        span.fits(),
        0 <= span.cd.edge,
    ensures
        forall|k: int|
            0 <= k < face_blocks(span, face).len() ==> span.contains_spec(
                #[trigger] face_blocks(span, face)[k],
            ),
{
    span.lemma_wf();
    let inf = span.face_inf(face);
    let sup = inf.moved(span.face_dims(face.axis));
    lemma_rect_seq_is_the_rect(inf, sup);
    assert forall|k: int| 0 <= k < face_blocks(span, face).len() implies span.contains_spec(
        #[trigger] face_blocks(span, face)[k],
    ) by {
        assert(in_rect(inf, sup, rect_seq(inf, sup)[k]));
    }
}

/// The culling info of the face of a chunk towards `face` reads the blocks of the chunk that
/// touch that face, those whose coordinate along the face's axis is the chunk's largest one
/// (for a positivewards face) or smallest one (for a negativewards face): it is "all air"
/// exactly when all of them are air, and "all opaque" exactly when they are not all air and
/// all of them are solid.
pub proof fn law_face_culling_reads_the_blocks_touching_the_face(
    blocks: Seq<BlockModel>,
    span: ChunkCoordsSpan,
    table: Seq<BlockType>,
    face: OrientedAxis,
)
    requires
        span.fits(),
        1 <= span.cd.edge,
    ensures
        (face_culling_info_spec(blocks, span, table, face) == FaceCullingInfo::AllAir) <==> (forall|p: Point3i|
            span.contains_spec(p) && p.coord(face.axis.spec_index()) == face_layer_coord(span, face)
                ==> (#[trigger] block_type_at(blocks, span, table, p)) is Air),
        (face_culling_info_spec(blocks, span, table, face) == FaceCullingInfo::AllOpaque) <==> (!(forall|
            p: Point3i|
            span.contains_spec(p) && p.coord(face.axis.spec_index()) == face_layer_coord(span, face)
                ==> (#[trigger] block_type_at(blocks, span, table, p)) is Air) && (forall|p: Point3i|
            span.contains_spec(p) && p.coord(face.axis.spec_index()) == face_layer_coord(span, face)
                ==> (#[trigger] block_type_at(blocks, span, table, p)) is Solid)),
{
    law_face_blocks_touch_the_face(span, face);
    let f = face_blocks(span, face);
    let a = face.axis.spec_index();
    let layer = face_layer_coord(span, face);
    let all_air_f = forall|k: int| 0 <= k < f.len() ==> (#[trigger] block_type_at(blocks, span, table, f[k])) is Air;
    let all_solid_f = forall|k: int| 0 <= k < f.len() ==> (#[trigger] block_type_at(blocks, span, table, f[k])) is Solid;
    let all_air_l = forall|p: Point3i| span.contains_spec(p) && p.coord(a) == layer ==> (#[trigger] block_type_at(blocks, span, table, p)) is Air;
    let all_solid_l = forall|p: Point3i| span.contains_spec(p) && p.coord(a) == layer ==> (#[trigger] block_type_at(blocks, span, table, p)) is Solid;
    assert(all_air_f == all_air_l) by {
        if all_air_f {
            assert forall|p: Point3i| span.contains_spec(p) && p.coord(a) == layer implies (#[trigger] block_type_at(blocks, span, table, p)) is Air by {
                assert(f.contains(p));
                let k = choose|k: int| 0 <= k < f.len() && f[k] == p;
                assert(block_type_at(blocks, span, table, f[k]) is Air);
            }
        }
        if all_air_l {
            assert forall|k: int| 0 <= k < f.len() implies (#[trigger] block_type_at(blocks, span, table, f[k])) is Air by {
                assert(span.contains_spec(f[k]) && f[k].coord(a) == layer);
            }
        }
    }
    assert(all_solid_f == all_solid_l) by {
        if all_solid_f {
            assert forall|p: Point3i| span.contains_spec(p) && p.coord(a) == layer implies (#[trigger] block_type_at(blocks, span, table, p)) is Solid by {
                assert(f.contains(p));
                let k = choose|k: int| 0 <= k < f.len() && f[k] == p;
                assert(block_type_at(blocks, span, table, f[k]) is Solid);
            }
        }
        if all_solid_l {
            assert forall|k: int| 0 <= k < f.len() implies (#[trigger] block_type_at(blocks, span, table, f[k])) is Solid by {
                assert(span.contains_spec(f[k]) && f[k].coord(a) == layer);
            }
        }
    }
}

impl ChunkCullingInfo {
    pub fn new_all_air() -> (r: ChunkCullingInfo)
        ensures
            forall|i: int| 0 <= i < 6 ==> r.faces@[i] == FaceCullingInfo::AllAir,
    {
        ChunkCullingInfo { faces: [FaceCullingInfo::AllAir; 6] }
    }

    pub fn compute_from_blocks(blocks: &ChunkBlocks, block_type_table: &BlockTypeTable) -> (r:
        ChunkCullingInfo)
        requires
            blocks.wf(),
            types_in_table(blocks@, block_type_table@),
        ensures
            forall|i: int|
                0 <= i < 6 ==> r.faces@[i] == if blocks.contains_only_air_spec() {
                    FaceCullingInfo::AllAir
                } else {
                    face_culling_info_spec(blocks@, blocks.span(), block_type_table@, six_directions()[i])
                },
    {
        if !blocks.contains_non_air() {
            return ChunkCullingInfo::new_all_air();
        }
        let directions = OrientedAxis::all_the_six_possible_directions();
        let mut culling_info = ChunkCullingInfo::new_all_air();
        let mut face_index: usize = 0;
        while face_index < 6
            invariant
                blocks.wf(),
                types_in_table(blocks@, block_type_table@),
                !blocks.contains_only_air_spec(),
                directions@ == six_directions(),
                face_index <= 6,
                forall|i: int|
                    0 <= i < face_index ==> culling_info.faces@[i] == face_culling_info_spec(
                        blocks@,
                        blocks.span(),
                        block_type_table@,
                        six_directions()[i],
                    ),
            decreases 6 - face_index,
        {
            let face_culling_info = ChunkCullingInfo::get_face_culling_info(
                directions[face_index],
                blocks,
                block_type_table,
            );
            culling_info.faces[face_index] = face_culling_info;
            face_index = face_index + 1;
        }
        culling_info
    }

    fn get_face_culling_info(
        face: OrientedAxis,
        blocks: &ChunkBlocks,
        block_type_table: &BlockTypeTable,
    ) -> (r: FaceCullingInfo)
        requires
            blocks.wf(),
            types_in_table(blocks@, block_type_table@),
        ensures
            r == face_culling_info_spec(blocks@, blocks.span(), block_type_table@, face),
    {
        let ghost span = blocks.span();
        let ghost table = block_type_table@;
        let face_coords = blocks.coords_span().iter_block_coords_on_chunk_face(face);
        proof {
            lemma_face_blocks_in_chunk(span, face);
        }
        let mut all_air = true;
        let mut all_opaque = true;
        let mut k: usize = 0;
        while k < face_coords.len() && (all_air || all_opaque)
            invariant
                blocks.wf(),
                span == blocks.span(),
                table == block_type_table@,
                types_in_table(blocks@, table),
                face_coords@ == face_blocks(span, face),
                forall|kk: int| 0 <= kk < face_coords@.len() ==> span.contains_spec(#[trigger] face_coords@[kk]),
                k <= face_coords.len(),
                all_air == forall|kk: int| 0 <= kk < k ==> (#[trigger] block_type_at(blocks@, span, table, face_coords@[kk])) is Air,
                all_opaque == forall|kk: int| 0 <= kk < k ==> (#[trigger] block_type_at(blocks@, span, table, face_coords@[kk])) is Solid,
            decreases face_coords.len() - k,
        {
            let block_coords = face_coords[k];
            let ghost p = face_coords@[k as int];
            proof {
                lemma_internal_index_is_position_in_iteration(span, p);
            }
            let block_type_id = match blocks.get(block_coords) {
                Some(view) => view.type_id,
                None => BlockTypeTable::AIR_ID,
            };
            let block_type = match block_type_table.get(block_type_id) {
                Some(t) => t,
                None => {
                    return FaceCullingInfo::SomeAirSomeOpaque;
                },
            };
            proof {
                assert(*block_type == block_type_at(blocks@, span, table, p));
            }
            if !block_type.is_opaque() {
                all_opaque = false;
            }
            if !block_type.is_air() {
                all_air = false;
            }
            k = k + 1;
        }
        proof {
            if !all_air {
                let kk = choose|kk: int| 0 <= kk < k && !(block_type_at(blocks@, span, table, face_coords@[kk]) is Air);
                assert(!(block_type_at(blocks@, span, table, face_coords@[kk]) is Air));
            }
            if !all_opaque {
                let kk = choose|kk: int| 0 <= kk < k && !(block_type_at(blocks@, span, table, face_coords@[kk]) is Solid);
                assert(!(block_type_at(blocks@, span, table, face_coords@[kk]) is Solid));
            }
        }
        if all_air {
            FaceCullingInfo::AllAir
        } else if all_opaque {
            FaceCullingInfo::AllOpaque
        } else {
            FaceCullingInfo::SomeAirSomeOpaque
        }
    }
}

/// `u32::checked_ilog2`: the base 2 logarithm of the number, rounded down, or `None` for zero.
#[verifier::external_body]
fn checked_ilog2_u32(x: u32) -> (r: Option<u32>)
    ensures
        r.is_none() == (x == 0),
        r.is_some() ==> pow2(r.unwrap() as nat) <= x < pow2((r.unwrap() + 1) as nat),
{
    x.checked_ilog2()
}

} // verus!
