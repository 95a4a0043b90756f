//! The meshing of a chunk: which faces of its blocks are drawn, and the opaqueness of the
//! one-block-thick layer of blocks around the chunk, that the meshing reads to cull the faces
//! hidden by opaque neighbours.

use vstd::prelude::*;
use vstd::arithmetic::div_mod::lemma_fundamental_div_mod_converse;
use crate::bits::{bitvec_get, bitvec_len, bitvec_repeat, bitvec_set, bits_of, BitBuffer};
use crate::block_types::{BlockType, BlockTypeTable, Point2i};
use crate::chunk_blocks::{get_spec, types_in_table, ChunkBlocks};
use crate::coords::{
    in_i32, pt, six_directions, spec_delta, AxisOrientation, NonOrientedAxis, OrientedAxis, Point3i,
    Vector3i,
};
use crate::coords::bit_cube::{in_cube, BitCube3, BitCube3Coords};
use crate::face_mesh::{
    along, block_face_mesh, face_mesh_vertices, sign_of, xshaped_block_face_mesh, xshaped_mesh_vertices,
    xshaped_normal, xshaped_offsets, FaceMesh, FaceVertex,
};
use crate::coords::span::{
    iter_3d_cube_center_radius, lemma_internal_index_is_position_in_iteration,
    lemma_rect_seq_is_the_rect, rect_seq, ChunkCoordsSpan, ChunkDimensions,
};

verus! {

/// The number of blocks in the layer around a chunk of the given dimensions: six faces, twelve
/// edges and eight corners.
pub open spec fn layer_size(e: int) -> int {
    6 * e * e + 12 * e + 8
}

/// Whether everything about the layer around the chunk can be computed in `i32`.
pub open spec fn layer_fits(span: ChunkCoordsSpan) -> bool {
    let inf = span.inf_spec();
    &&& span.fits()
    &&& 0 <= span.cd.edge
    &&& in_i32(inf.x - 1) && in_i32(inf.y - 1) && in_i32(inf.z - 1)
    &&& layer_size(span.cd.edge as int) <= i32::MAX
    &&& layer_size(span.cd.edge as int) <= usize::MAX / 8
}

/// The negativewards corner of the cube made of the chunk and its layer.
pub open spec fn layer_inf(span: ChunkCoordsSpan) -> Point3i {
    let inf = span.inf_spec();
    pt(inf.x - 1, inf.y - 1, inf.z - 1)
}

/// Whether the block at `p` is in the layer around the chunk: in the cube made of the chunk and
/// its layer, but not in the chunk.
pub open spec fn in_layer(span: ChunkCoordsSpan, p: Point3i) -> bool {
    let inf = layer_inf(span);
    let sup = span.sup_spec();
    &&& !span.contains_spec(p)
    &&& inf.x <= p.x <= sup.x && inf.y <= p.y <= sup.y && inf.z <= p.z <= sup.z
}

/// The index, in the layer's data, of the block of position `(ix, iy, iz)` relative to
/// `layer_inf`, where `l` is the edge of the cube made of the chunk and its layer. The bottom
/// face comes first, then the top face, then the rings between them from the bottom up, each
/// ring listing its side X-, its side X+, then the rest of its side Y-, then the rest of its
/// side Y+.
pub open spec fn layer_index_of_position(l: int, ix: int, iy: int, iz: int) -> int {
    let ll = l * l;
    if iz == 0 {
        ix + iy * l
    } else if iz == l - 1 {
        ll + (ix + iy * l)
    } else {
        let square_size = (l - 1) * 4;
        let sub_index = if ix == 0 {
            iy
        } else if ix == l - 1 {
            l + iy
        } else if iy == 0 {
            l * 2 + (ix - 1)
        } else {
            l * 2 + (l - 2) + (ix - 1)
        };
        ll * 2 + (iz - 1) * square_size + sub_index
    }
}

/// The index, in the layer's data, of the block at `p`, if it is in the layer.
pub open spec fn layer_index(span: ChunkCoordsSpan, p: Point3i) -> Option<int> {
    if in_layer(span, p) {
        let inf = layer_inf(span);
        Some(
            layer_index_of_position(
                span.cd.edge + 2,
                p.x - inf.x,
                p.y - inf.y,
                p.z - inf.z,
            ),
        )
    } else {
        None
    }
}

/// The position relative to `layer_inf` of the block of index `i` in the layer's data.
pub open spec fn layer_position_of_index(l: int, i: int) -> (int, int, int) {
    let ll = l * l;
    if i < ll {
        (i % l, i / l, 0)
    } else if i < ll * 2 {
        ((i - ll) % l, (i - ll) / l, l - 1)
    } else {
        let square_size = (l - 1) * 4;
        let j = i - ll * 2;
        let iz = j / square_size + 1;
        let sub = j % square_size;
        if sub < l {
            (0, sub, iz)
        } else if sub < 2 * l {
            (l - 1, sub - l, iz)
        } else if sub < 3 * l - 2 {
            (sub - 2 * l + 1, 0, iz)
        } else {
            (sub - (3 * l - 2) + 1, l - 1, iz)
        }
    }
}

/// Whether the position `(ix, iy, iz)` relative to `layer_inf` is in the layer, where `l` is
/// the edge of the cube made of the chunk and its layer.
pub open spec fn on_layer_position(l: int, ix: int, iy: int, iz: int) -> bool {
    &&& 0 <= ix < l && 0 <= iy < l && 0 <= iz < l
    &&& (ix == 0 || ix == l - 1 || iy == 0 || iy == l - 1 || iz == 0 || iz == l - 1)
}

proof fn lemma_position_index_round_trip(l: int, ix: int, iy: int, iz: int)
    requires
        2 <= l,
        on_layer_position(l, ix, iy, iz),
    ensures
        0 <= layer_index_of_position(l, ix, iy, iz) < 6 * l * l - 12 * l + 8,
        layer_position_of_index(l, layer_index_of_position(l, ix, iy, iz)) == (ix, iy, iz),
{
    let i = layer_index_of_position(l, ix, iy, iz);
    let ll = l * l;
    let size = 6 * l * l - 12 * l + 8;
    assert(ll * 2 <= size && 0 <= ix + iy * l < ll && size == ll * 2 + (l - 2) * ((l - 1) * 4))
        by (nonlinear_arith)
        requires
            2 <= l,
            ll == l * l,
            size == 6 * l * l - 12 * l + 8,
            0 <= ix < l,
            0 <= iy < l,
    ;
    if iz == 0 {
        lemma_fundamental_div_mod_converse(i, l, iy, ix);
    } else if iz == l - 1 {
        lemma_fundamental_div_mod_converse(i - ll, l, iy, ix);
    } else {
        let square_size = (l - 1) * 4;
        let sub_index = if ix == 0 {
            iy
        } else if ix == l - 1 {
            l + iy
        } else if iy == 0 {
            l * 2 + (ix - 1)
        } else {
            l * 2 + (l - 2) + (ix - 1)
        };
        assert(0 <= sub_index < square_size);
        assert(i == ll * 2 + (iz - 1) * square_size + sub_index);
        lemma_fundamental_div_mod_converse(i - ll * 2, square_size, iz - 1, sub_index);
        assert(i < size) by (nonlinear_arith)
            requires
                i == ll * 2 + (iz - 1) * square_size + sub_index,
                size == ll * 2 + (l - 2) * square_size,
                0 <= sub_index < square_size,
                1 <= iz <= l - 2,
        {
            assert((iz - 1) * square_size <= (l - 3) * square_size);
        }
    }
}

proof fn lemma_index_position_round_trip(l: int, i: int)
    requires
        2 <= l,
        0 <= i < 6 * l * l - 12 * l + 8,
    ensures
        ({
            let (ix, iy, iz) = layer_position_of_index(l, i);
            on_layer_position(l, ix, iy, iz) && layer_index_of_position(l, ix, iy, iz) == i
        }),
{
    let ll = l * l;
    let square_size = (l - 1) * 4;
    let size = 6 * l * l - 12 * l + 8;
    assert(size == ll * 2 + (l - 2) * square_size) by (nonlinear_arith)
        requires
            ll == l * l,
            square_size == (l - 1) * 4,
            size == 6 * l * l - 12 * l + 8,
    ;
    if i < ll {
        assert(0 <= i / l < l && i == i % l + (i / l) * l) by (nonlinear_arith)
            requires
                0 <= i < ll,
                ll == l * l,
                2 <= l,
        ;
    } else if i < ll * 2 {
        let j = i - ll;
        assert(0 <= j / l < l && j == j % l + (j / l) * l) by (nonlinear_arith)
            requires
                0 <= j < ll,
                ll == l * l,
                2 <= l,
        ;
    } else {
        let j = i - ll * 2;
        assert(0 <= j / square_size < l - 2 && j == (j / square_size) * square_size + j
            % square_size && 0 <= j % square_size < square_size) by (nonlinear_arith)
            requires
                0 <= j < (l - 2) * square_size,
                square_size == (l - 1) * 4,
                2 <= l,
        ;
    }
}

/// Whether some block of the layer around the chunk has the index `i` in the layer's data.
pub open spec fn layer_index_reached(span: ChunkCoordsSpan, i: int) -> bool {
    exists|p: Point3i| in_layer(span, p) && #[trigger] layer_index(span, p) == Some(i)
}

/// The layer indexing is a bijection from the blocks of the layer around a chunk to the
/// indices from 0 to the layer size (excluded): each block of the layer gets an index below
/// the layer size, two blocks of the layer never get the same index, every index below the
/// layer size is the index of some block of the layer, and the blocks outside the layer get
/// no index.
pub proof fn lemma_layer_index_is_a_bijection(span: ChunkCoordsSpan)
    requires
        layer_fits(span),
    ensures
        forall|p: Point3i| (#[trigger] layer_index(span, p)) is Some <==> in_layer(span, p),
        forall|p: Point3i|
            #[trigger] in_layer(span, p) ==> 0 <= layer_index(span, p).unwrap() < layer_size(
                span.cd.edge as int,
            ),
        forall|p: Point3i, q: Point3i|
            in_layer(span, p) && in_layer(span, q) && #[trigger] layer_index(span, p)
                == #[trigger] layer_index(span, q) ==> p == q,
        forall|i: int|
            0 <= i < layer_size(span.cd.edge as int) ==> #[trigger] layer_index_reached(span, i),
{
    span.lemma_wf();
    let e = span.cd.edge as int;
    let l = e + 2;
    let inf = layer_inf(span);
    let cinf = span.inf_spec();
    let csup = span.sup_spec();
    assert(layer_size(e) == 6 * l * l - 12 * l + 8) by (nonlinear_arith)
        requires
            l == e + 2,
    ;
    assert forall|p: Point3i| #[trigger] in_layer(span, p) implies 0 <= layer_index(
        span,
        p,
    ).unwrap() < layer_size(e) && layer_position_of_index(l, layer_index(span, p).unwrap()) == (
        p.x - inf.x,
        p.y - inf.y,
        p.z - inf.z,
    ) by {
        lemma_position_index_round_trip(l, p.x - inf.x, p.y - inf.y, p.z - inf.z);
    }
    assert forall|p: Point3i, q: Point3i|
        in_layer(span, p) && in_layer(span, q) && #[trigger] layer_index(span, p)
            == #[trigger] layer_index(span, q) implies p == q by {
        assert(layer_position_of_index(l, layer_index(span, p).unwrap()) == (
            p.x - inf.x,
            p.y - inf.y,
            p.z - inf.z,
        ));
        assert(layer_position_of_index(l, layer_index(span, q).unwrap()) == (
            q.x - inf.x,
            q.y - inf.y,
            q.z - inf.z,
        ));
    }
    assert forall|i: int| 0 <= i < layer_size(e) implies #[trigger] layer_index_reached(span, i) by {
        lemma_index_position_round_trip(l, i);
        let (ix, iy, iz) = layer_position_of_index(l, i);
        let p = pt(inf.x + ix, inf.y + iy, inf.z + iz);
        assert(in_layer(span, p));
        assert(layer_index(span, p) == Some(i));
    }
}

/// The opaqueness of the blocks of the one-block-thick layer that surrounds a chunk (the layer
/// is around the chunk, the chunk itself is the hole in its middle).
pub struct OpaquenessLayerAroundChunk {
    surrounded_chunk_coords_span: ChunkCoordsSpan,
    data: BitBuffer,
}

impl OpaquenessLayerAroundChunk {
    #[verifier::type_invariant]
    spec fn wf(self) -> bool {
        &&& layer_fits(self.surrounded_chunk_coords_span)
        &&& bits_of(self.data).len() == layer_size(self.surrounded_chunk_coords_span.cd.edge as int)
    }

    /// The span of the chunk that the layer surrounds.
    pub closed spec fn span(self) -> ChunkCoordsSpan {
        self.surrounded_chunk_coords_span
    }

    /// The opaqueness of the blocks of the layer, by their index (see `layer_index`).
    pub closed spec fn view(self) -> Seq<bool> {
        bits_of(self.data)
    }

    /// A layer around the chunk of the given span, all of it not opaque.
    pub fn new(surrounded_chunk_coords_span: ChunkCoordsSpan) -> (r: OpaquenessLayerAroundChunk)
        requires
            layer_fits(surrounded_chunk_coords_span),
        ensures
            r.span() == surrounded_chunk_coords_span,
            r@ == Seq::new(layer_size(surrounded_chunk_coords_span.cd.edge as int) as nat, |_i: int| false),
    {
        let size = OpaquenessLayerAroundChunk::data_size(surrounded_chunk_coords_span.cd);
        let data = bitvec_repeat(false, size);
        OpaquenessLayerAroundChunk { surrounded_chunk_coords_span, data }
    }

    /// The number of blocks in the layer around a chunk of the given dimensions.
    pub fn data_size(cd: ChunkDimensions) -> (r: usize)
        requires
            0 <= cd.edge,
            layer_size(cd.edge as int) <= i32::MAX,
        ensures
            r == layer_size(cd.edge as int),
    {
        let e = cd.edge;
        assert(0 <= e * e * 6 && e * e * 6 + e * 12 + 8 == layer_size(e as int)) by (nonlinear_arith)
            requires
                0 <= e,
        ;
        let face_size = e * e;
        let edge_size = e;
        let corner_size: i32 = 1;
        (face_size * 6 + edge_size * 12 + corner_size * 8) as usize
    }

    /// The index in the layer's data of the block at `coords`, if it is in the layer.
    pub fn coords_to_index_in_data_unchecked(&self, coords: Point3i) -> (r: Option<usize>)
        ensures
            r matches Some(i) ==> layer_index(self.span(), coords) == Some(i as int),
            r is None ==> layer_index(self.span(), coords) is None,
    {
        proof {
            use_type_invariant(self);
            self.surrounded_chunk_coords_span.lemma_wf();
        }
        let span = self.surrounded_chunk_coords_span;
        if span.contains(coords) {
            // The coordinates are in the hole in the middle of the layer.
            return None;
        }
        let chunk_inf = span.block_coords_inf();
        let inf = Point3i { x: chunk_inf.x - 1, y: chunk_inf.y - 1, z: chunk_inf.z - 1 };
        let sup = span.block_coords_sup_excluded();
        let contained_in_the_layer = inf.x <= coords.x && coords.x <= sup.x && inf.y <= coords.y
            && coords.y <= sup.y && inf.z <= coords.z && coords.z <= sup.z;
        if !contained_in_the_layer {
            return None;
        }
        let layer_edge = span.cd.edge + 2;
        let ix = coords.x - inf.x;
        let iy = coords.y - inf.y;
        let iz = coords.z - inf.z;
        proof {
            let l = layer_edge as int;
            assert(on_layer_position(l, ix as int, iy as int, iz as int));
            lemma_position_index_round_trip(l, ix as int, iy as int, iz as int);
            assert(layer_size(span.cd.edge as int) == 6 * l * l - 12 * l + 8) by (nonlinear_arith)
                requires
                    l == span.cd.edge + 2,
            ;
            assert(l * l <= 6 * l * l - 12 * l + 8 && l * l * 2 <= 6 * l * l - 12 * l + 8
                && iy * l <= l * l) by (nonlinear_arith)
                requires
                    2 <= l,
                    0 <= iy < l,
            ;
        }
        if iz == 0 {
            Some((ix + iy * layer_edge) as usize)
        } else if iz == layer_edge - 1 {
            Some((layer_edge * layer_edge + (ix + iy * layer_edge)) as usize)
        } else {
            let square_size = (layer_edge - 1) * 4;
            let sub_index = if ix == 0 {
                iy
            } else if ix == layer_edge - 1 {
                layer_edge + iy
            } else if iy == 0 {
                layer_edge * 2 + (ix - 1)
            } else {
                layer_edge * 2 + (layer_edge - 2) + (ix - 1)
            };
            proof {
                let l = layer_edge as int;
                assert(0 <= (iz - 1) * square_size <= (iz - 1) * square_size + sub_index)
                    by (nonlinear_arith)
                    requires
                        1 <= iz,
                        0 <= square_size,
                        0 <= sub_index,
                ;
            }
            Some((layer_edge * layer_edge * 2 + (iz - 1) * square_size + sub_index) as usize)
        }
    }

    /// The index in the layer's data of the block at `coords`, if it is in the layer; it is
    /// always in the bounds of the data.
    pub fn coords_to_index_in_data(&self, coords: Point3i) -> (r: Option<usize>)
        ensures
            r matches Some(i) ==> layer_index(self.span(), coords) == Some(i as int) && i
                < self@.len(),
            r is None ==> layer_index(self.span(), coords) is None,
    {
        proof {
            use_type_invariant(self);
            lemma_layer_index_is_a_bijection(self.surrounded_chunk_coords_span);
        }
        self.coords_to_index_in_data_unchecked(coords)
    }

    /// Sets the opaqueness of the block at `coords`, which must be in the layer.
    pub fn set(&mut self, coords: Point3i, value: bool)
        requires
            in_layer(old(self).span(), coords),
        ensures
            final(self).span() == old(self).span(),
            final(self)@ == old(self)@.update(layer_index(old(self).span(), coords).unwrap(), value),
    {
        proof {
            use_type_invariant(&*self);
            lemma_layer_index_is_a_bijection(self.surrounded_chunk_coords_span);
        }
        match self.coords_to_index_in_data(coords) {
            Some(index) => {
                bitvec_set(&mut self.data, index, value);
            },
            None => {},
        }
    }

    /// The opaqueness of the block at `coords`, if it is in the layer.
    pub fn get(&self, coords: Point3i) -> (r: Option<bool>)
        ensures
            r == (match layer_index(self.span(), coords) {
                Some(i) => Some(self@[i]),
                None => None,
            }),
    {
        match self.coords_to_index_in_data(coords) {
            Some(index) => bitvec_get(&self.data, index),
            None => None,
        }
    }
}


// ---------------------------------------------------------------- faces to mesh

/// What is drawn of a block: one face of a solid block, or an X-shaped block (its four
/// half-faces), with the opaqueness of the 3x3x3 blocks around it (for ambient occlusion) and
/// where its texture is in the atlas.
#[derive(Debug, Clone, Copy)]
pub enum FaceToMesh {
    /// The face of the solid block at `coords` that faces `direction`.
    BlockFace {
        coords: Point3i,
        direction: OrientedAxis,
        opacity_bit_cube_3_for_ambiant_occlusion: BitCube3,
        texture_coords_on_atlas: Point2i,
    },
    /// The X-shaped block at `coords`.
    XShapedBlock {
        coords: Point3i,
        opacity_bit_cube_3_for_ambiant_occlusion: BitCube3,
        texture_coords_on_atlas: Point2i,
    },
}

/// A face to mesh: the block's coordinates, the direction of the face (none for an X-shaped
/// block) and the texture's coordinates in the atlas.
pub type FaceModel = (Point3i, Option<OrientedAxis>, Point2i);

impl FaceToMesh {
    pub open spec fn model(self) -> FaceModel {
        match self {
            FaceToMesh::BlockFace { coords, direction, texture_coords_on_atlas, .. } => (
                coords,
                Some(direction),
                texture_coords_on_atlas,
            ),
            FaceToMesh::XShapedBlock { coords, texture_coords_on_atlas, .. } => (
                coords,
                None,
                texture_coords_on_atlas,
            ),
        }
    }

    /// The opaqueness of the blocks around the block, for ambient occlusion.
    pub open spec fn ambiant_occlusion(self) -> BitCube3 {
        match self {
            FaceToMesh::BlockFace { opacity_bit_cube_3_for_ambiant_occlusion, .. } => opacity_bit_cube_3_for_ambiant_occlusion,
            FaceToMesh::XShapedBlock { opacity_bit_cube_3_for_ambiant_occlusion, .. } => opacity_bit_cube_3_for_ambiant_occlusion,
        }
    }
}

/// Which faces a block of the chunk gets: a solid block gets a face towards a direction
/// exactly when the block next to it in that direction (in the chunk, or in the layer of face
/// culling around it) is not opaque, and all its faces are its own, with its texture; an
/// X-shaped block gets its one X-shaped mesh; the other blocks get nothing.
pub proof fn law_faces_are_those_no_opaque_neighbour_covers(
    data: DataForChunkMeshing,
    coords: Point3i,
    d: OrientedAxis,
)
    requires
        data.chunk_blocks.span().contains_spec(coords),
    ensures
        match get_spec(data.chunk_blocks@, data.chunk_blocks.span(), coords) {
            Some(b) => match data.block_type_table@[b.0 as int] {
                BlockType::Solid { texture_coords_on_atlas: t } => {
                    &&& data.faces_of_block(coords).contains((coords, Some(d), t))
                        <==> !data.opaque_at(coords.moved(spec_delta(d)), false)
                    &&& forall|k: int|
                        0 <= k < data.faces_of_block(coords).len() ==> {
                            let f = #[trigger] data.faces_of_block(coords)[k];
                            f.0 == coords && f.1 is Some && f.2 == t
                        }
                },
                BlockType::XShaped { texture_coords_on_atlas: t } => data.faces_of_block(coords)
                    == seq![(coords, None::<OrientedAxis>, t)],
                _ => data.faces_of_block(coords).len() == 0,
            },
            None => false,
        },
{
    let span = data.chunk_blocks.span();
    match get_spec(data.chunk_blocks@, span, coords) {
        Some(b) => match data.block_type_table@[b.0 as int] {
            BlockType::Solid { texture_coords_on_atlas: t } => {
                let pred = |e: OrientedAxis| !data.opaque_at(coords.moved(spec_delta(e)), false);
                let six = six_directions();
                let fs = six.filter(pred);
                let faces = fs.map_values(|e: OrientedAxis| (coords, Some(e), t));
                assert(data.faces_of_block(coords) == faces);
                six.filter_lemma(pred);
                let i: int = if d.axis == NonOrientedAxis::X {
                    if d.orientation == AxisOrientation::Positivewards { 0 } else { 1 }
                } else if d.axis == NonOrientedAxis::Y {
                    if d.orientation == AxisOrientation::Positivewards { 2 } else { 3 }
                } else {
                    if d.orientation == AxisOrientation::Positivewards { 4 } else { 5 }
                };
                assert(six[i] == d);
                if pred(d) {
                    assert(fs.contains(six[i]));
                    let j = choose|j: int| 0 <= j < fs.len() && fs[j] == d;
                    assert(faces[j] == (coords, Some(d), t));
                }
                if faces.contains((coords, Some(d), t)) {
                    let j = choose|j: int| 0 <= j < faces.len() && faces[j] == (coords, Some(d), t);
                    assert(fs[j] == d);
                    assert(pred(fs[j]));
                }
            },
            _ => {},
        },
        None => {
            lemma_internal_index_is_position_in_iteration(span, coords);
        },
    }
}

/// The displacement from the center of a 3x3x3 cube to its cell `p`.
pub open spec fn cell_delta(p: Point3i) -> Vector3i {
    Vector3i { x: p.x, y: p.y, z: p.z }
}

/// All that the meshing of a chunk reads: its blocks, the opaqueness of the layer around it
/// (one for the culling of faces, one for ambient occlusion), and the table of block types.
pub struct DataForChunkMeshing {
    pub chunk_blocks: ChunkBlocks,
    pub opaqueness_layer_for_face_culling: OpaquenessLayerAroundChunk,
    pub opaqueness_layer_for_ambiant_occlusion: OpaquenessLayerAroundChunk,
    pub block_type_table: BlockTypeTable,
}

impl DataForChunkMeshing {
    /// The blocks are well formed and of types of the table, and the layers surround the chunk.
    pub open spec fn wf(self) -> bool {
        &&& self.chunk_blocks.wf()
        &&& types_in_table(self.chunk_blocks@, self.block_type_table@)
        &&& self.opaqueness_layer_for_face_culling.span() == self.chunk_blocks.span()
        &&& self.opaqueness_layer_for_ambiant_occlusion.span() == self.chunk_blocks.span()
    }

    /// Whether the block at `coords` is opaque: a block of the chunk is opaque when it is solid,
    /// and the layer (of face culling or of ambient occlusion) tells for the blocks around.
    pub open spec fn opaque_at(self, coords: Point3i, for_ambiant_occlusion: bool) -> bool {
        let span = self.chunk_blocks.span();
        match get_spec(self.chunk_blocks@, span, coords) {
            Some(b) => self.block_type_table@[b.0 as int] is Solid,
            None => {
                let layer = if for_ambiant_occlusion {
                    self.opaqueness_layer_for_ambiant_occlusion
                } else {
                    self.opaqueness_layer_for_face_culling
                };
                match layer_index(span, coords) {
                    Some(i) => layer@[i],
                    None => false,
                }
            },
        }
    }

    /// The faces drawn for the block at `coords`: the faces of a solid block that no opaque
    /// neighbour covers, in the order of `six_directions`; an X-shaped block; nothing for the
    /// other blocks.
    pub open spec fn faces_of_block(self, coords: Point3i) -> Seq<FaceModel> {
        match get_spec(self.chunk_blocks@, self.chunk_blocks.span(), coords) {
            Some(b) => match self.block_type_table@[b.0 as int] {
                BlockType::Solid { texture_coords_on_atlas } => six_directions().filter(
                    |d: OrientedAxis| !self.opaque_at(coords.moved(spec_delta(d)), false),
                ).map_values(|d: OrientedAxis| (coords, Some(d), texture_coords_on_atlas)),
                BlockType::XShaped { texture_coords_on_atlas } => seq![(coords, None, texture_coords_on_atlas)],
                _ => Seq::empty(),
            },
            None => Seq::empty(),
        }
    }

    /// The faces drawn for the chunk: those of each of its blocks, in the order of
    /// `ChunkCoordsSpan::iter_coords`.
    pub open spec fn faces(self) -> Seq<FaceModel> {
        let span = self.chunk_blocks.span();
        let blocks = rect_seq(span.inf_spec(), span.sup_spec());
        Seq::new(blocks.len(), |i: int| self.faces_of_block(blocks[i])).flatten()
    }

    /// The cube holds the opaqueness (for ambient occlusion) of the 3x3x3 blocks around
    /// `coords`.
    pub open spec fn ambiant_occlusion_ok(self, coords: Point3i, cube: BitCube3) -> bool {
        forall|p: Point3i|
            in_cube(p) ==> #[trigger] cube.at(p) == self.opaque_at(coords.moved(cell_delta(p)), true)
    }

    /// Whether the block at `coords`, in the chunk or in the layer around it, is opaque.
    fn is_opaque(&self, coords: Point3i, for_ambiant_occlusion: bool) -> (r: bool)
        requires
            self.wf(),
            self.chunk_blocks.span().contains_spec(coords) || in_layer(
                self.chunk_blocks.span(),
                coords,
            ),
        ensures
            r == self.opaque_at(coords, for_ambiant_occlusion),
    {
        let ghost span = self.chunk_blocks.span();
        match self.chunk_blocks.get(coords) {
            Some(view) => {
                proof {
                    self.chunk_blocks.lemma_span_ok();
                    span.lemma_wf();
                    lemma_internal_index_is_position_in_iteration(span, coords);
                }
                match self.block_type_table.get(view.type_id) {
                    Some(block_type) => block_type.is_opaque(),
                    None => false,
                }
            },
            None => {
                let layer = if for_ambiant_occlusion {
                    &self.opaqueness_layer_for_ambiant_occlusion
                } else {
                    &self.opaqueness_layer_for_face_culling
                };
                match layer.get(coords) {
                    Some(opaque) => opaque,
                    None => false,
                }
            },
        }
    }

    /// The opaqueness, for ambient occlusion, of the 3x3x3 blocks around the block at
    /// `coords` of the chunk.
    fn opacity_bit_cube_3_for_ambiant_occlusion(&self, coords: Point3i) -> (r: BitCube3)
        requires
            self.wf(),
            self.chunk_blocks.span().contains_spec(coords),
        ensures
            self.ambiant_occlusion_ok(coords, r),
    {
        let ghost span = self.chunk_blocks.span();
        proof {
            use_type_invariant(&self.opaqueness_layer_for_ambiant_occlusion);
            self.chunk_blocks.lemma_span_ok();
            span.lemma_wf();
        }
        let mut cube = BitCube3::new_zero();
        let deltas = iter_3d_cube_center_radius(Point3i { x: 0, y: 0, z: 0 }, 2);
        let ghost inf = pt(-1, -1, -1);
        let ghost sup = pt(2, 2, 2);
        proof {
            assert(deltas@ == rect_seq(inf, sup));
            lemma_rect_seq_is_the_rect(inf, sup);
        }
        let mut j: usize = 0;
        while j < deltas.len()
            invariant
                self.wf(),
                span == self.chunk_blocks.span(),
                layer_fits(span),
                span.contains_spec(coords),
                deltas@ == rect_seq(inf, sup),
                forall|k: int| 0 <= k < deltas@.len() ==> in_cube(#[trigger] deltas@[k]),
                j <= deltas.len(),
                forall|k: int|
                    0 <= k < j ==> #[trigger] cube.at(deltas@[k]) == self.opaque_at(
                        coords.moved(cell_delta(deltas@[k])),
                        true,
                    ),
            decreases deltas.len() - j,
        {
            let delta = deltas[j];
            let neighbor_coords = Point3i {
                x: coords.x + delta.x,
                y: coords.y + delta.y,
                z: coords.z + delta.z,
            };
            let opaque = self.is_opaque(neighbor_coords, true);
            let ghost old_cube = cube;
            cube.set(BitCube3Coords::from_point(delta), opaque);
            proof {
                assert forall|k: int| 0 <= k < j + 1 implies #[trigger] cube.at(deltas@[k])
                    == self.opaque_at(coords.moved(cell_delta(deltas@[k])), true) by {
                    if deltas@[k] != delta {
                        assert(old_cube.at(deltas@[k]) == self.opaque_at(
                            coords.moved(cell_delta(deltas@[k])),
                            true,
                        ));
                    }
                }
            }
            j = j + 1;
        }
        proof {
            assert forall|p: Point3i| in_cube(p) implies #[trigger] cube.at(p) == self.opaque_at(
                coords.moved(cell_delta(p)),
                true,
            ) by {
                assert(crate::coords::span::in_rect(inf, sup, p));
            }
        }
        cube
    }

    /// The faces of the block at `coords` of the chunk that are drawn, appended to `faces`.
    fn push_faces_of_block(&self, coords: Point3i, faces: &mut Vec<FaceToMesh>)
        requires
            self.wf(),
            self.chunk_blocks.span().contains_spec(coords),
        ensures
            final(faces)@.map_values(|f: FaceToMesh| f.model()) == old(faces)@.map_values(
                |f: FaceToMesh| f.model(),
            ) + self.faces_of_block(coords),
            final(faces)@.len() >= old(faces)@.len(),
            final(faces)@.take(old(faces)@.len() as int) == old(faces)@,
            forall|k: int|
                old(faces)@.len() <= k < final(faces)@.len() ==> self.ambiant_occlusion_ok(
                    (#[trigger] final(faces)@[k]).model().0,
                    final(faces)@[k].ambiant_occlusion(),
                ),
    {
        let ghost span = self.chunk_blocks.span();
        let ghost before = faces@;
        proof {
            use_type_invariant(&self.opaqueness_layer_for_face_culling);
            self.chunk_blocks.lemma_span_ok();
            span.lemma_wf();
            lemma_internal_index_is_position_in_iteration(span, coords);
        }
        let block_id = match self.chunk_blocks.get(coords) {
            Some(view) => view.type_id,
            None => BlockTypeTable::AIR_ID,
        };
        match self.block_type_table.get(block_id) {
            Some(BlockType::Solid { texture_coords_on_atlas }) => {
                let cube = self.opacity_bit_cube_3_for_ambiant_occlusion(coords);
                let directions = OrientedAxis::all_the_six_possible_directions();
                let ghost pred = |d: OrientedAxis| !self.opaque_at(coords.moved(spec_delta(d)), false);
                let ghost tex = *texture_coords_on_atlas;
                let mut k: usize = 0;
                while k < 6
                    invariant
                        self.wf(),
                        span == self.chunk_blocks.span(),
                        layer_fits(span),
                        span.contains_spec(coords),
                        directions@ == six_directions(),
                        self.ambiant_occlusion_ok(coords, cube),
                        k <= 6,
                        faces@.take(before.len() as int) == before,
                        faces@.len() >= before.len(),
                        faces@.map_values(|f: FaceToMesh| f.model()) == before.map_values(
                            |f: FaceToMesh| f.model(),
                        ) + six_directions().take(k as int).filter(pred).map_values(
                            |d: OrientedAxis| (coords, Some(d), tex),
                        ),
                        forall|kk: int|
                            before.len() <= kk < faces@.len() ==> self.ambiant_occlusion_ok(
                                (#[trigger] faces@[kk]).model().0,
                                faces@[kk].ambiant_occlusion(),
                            ),
                        tex == *texture_coords_on_atlas,
                        pred == (|d: OrientedAxis| !self.opaque_at(coords.moved(spec_delta(d)), false)),
                    decreases 6 - k,
                {
                    let direction = directions[k];
                    let d = direction.delta();
                    let neighbor_coords = Point3i {
                        x: coords.x + d.x,
                        y: coords.y + d.y,
                        z: coords.z + d.z,
                    };
                    let ghost faces_before = faces@;
                    let is_covered_by_neighbor = self.is_opaque(neighbor_coords, false);
                    proof {
                        lemma_filter_take_step(six_directions(), pred, k as int);
                    }
                    if !is_covered_by_neighbor {
                        faces.push(
                            FaceToMesh::BlockFace {
                                coords,
                                direction,
                                opacity_bit_cube_3_for_ambiant_occlusion: cube,
                                texture_coords_on_atlas: *texture_coords_on_atlas,
                            },
                        );
                        proof {
                            assert(faces@.map_values(|f: FaceToMesh| f.model()) =~= faces_before.map_values(
                                |f: FaceToMesh| f.model(),
                            ).push((coords, Some(direction), tex)));
                            assert(faces@.take(before.len() as int) =~= faces_before.take(before.len() as int));
                        }
                    }
                    proof {
                        let fm = |d: OrientedAxis| (coords, Some(d), tex);
                        let prev = six_directions().take(k as int).filter(pred);
                        let before_models = before.map_values(|f: FaceToMesh| f.model());
                        assert(direction == six_directions()[k as int]);
                        assert(neighbor_coords == coords.moved(spec_delta(direction)));
                        assert(pred(direction) == !is_covered_by_neighbor);
                        if pred(direction) {
                            assert(prev.push(direction).map_values(fm) =~= prev.map_values(fm).push(
                                fm(direction),
                            ));
                            assert(before_models + prev.map_values(fm).push(fm(direction)) =~= (
                            before_models + prev.map_values(fm)).push(fm(direction)));
                        }
                    }
                    k = k + 1;
                }
                proof {
                    assert(six_directions().take(6) =~= six_directions());
                }
            },
            Some(BlockType::XShaped { texture_coords_on_atlas }) => {
                let cube = self.opacity_bit_cube_3_for_ambiant_occlusion(coords);
                faces.push(
                    FaceToMesh::XShapedBlock {
                        coords,
                        opacity_bit_cube_3_for_ambiant_occlusion: cube,
                        texture_coords_on_atlas: *texture_coords_on_atlas,
                    },
                );
                proof {
                    assert(faces@.map_values(|f: FaceToMesh| f.model()) =~= before.map_values(
                        |f: FaceToMesh| f.model(),
                    ).push((coords, None, *texture_coords_on_atlas)));
                    assert(faces@.take(before.len() as int) =~= before);
                }
            },
            _ => {
                proof {
                    assert(before.map_values(|f: FaceToMesh| f.model()) + Seq::<FaceModel>::empty()
                        =~= before.map_values(|f: FaceToMesh| f.model()));
                    assert(faces@.take(before.len() as int) =~= before);
                }
            },
        }
    }

    /// The faces that the mesh of the chunk is made of (each face is then turned into
    /// vertices): for each block of the chunk in order, the faces of a solid block that no
    /// opaque neighbour covers, or the X-shaped block, each with the opaqueness of the blocks
    /// around it for ambient occlusion.
    pub fn generate_mesh(&self) -> (r: Vec<FaceToMesh>)
        requires
            self.wf(),
        ensures
            r@.map_values(|f: FaceToMesh| f.model()) == self.faces(),
            forall|k: int|
                0 <= k < r@.len() ==> self.ambiant_occlusion_ok(
                    (#[trigger] r@[k]).model().0,
                    r@[k].ambiant_occlusion(),
                ),
    {
        let ghost span = self.chunk_blocks.span();
        proof {
            use_type_invariant(&self.opaqueness_layer_for_face_culling);
            self.chunk_blocks.lemma_span_ok();
            span.lemma_wf();
        }
        let block_coords = self.chunk_blocks.coords_span().iter_coords();
        let ghost blocks = rect_seq(span.inf_spec(), span.sup_spec());
        let ghost per_block = Seq::new(blocks.len(), |i: int| self.faces_of_block(blocks[i]));
        proof {
            lemma_rect_seq_is_the_rect(span.inf_spec(), span.sup_spec());
        }
        let mut faces: Vec<FaceToMesh> = Vec::new();
        let mut i: usize = 0;
        while i < block_coords.len()
            invariant
                self.wf(),
                span == self.chunk_blocks.span(),
                block_coords@ == blocks,
                blocks == rect_seq(span.inf_spec(), span.sup_spec()),
                per_block == Seq::new(blocks.len(), |i: int| self.faces_of_block(blocks[i])),
                forall|k: int| 0 <= k < blocks.len() ==> span.contains_spec(#[trigger] blocks[k]),
                i <= block_coords.len(),
                faces@.map_values(|f: FaceToMesh| f.model()) == per_block.take(i as int).flatten_alt(),
                forall|k: int|
                    0 <= k < faces@.len() ==> self.ambiant_occlusion_ok(
                        (#[trigger] faces@[k]).model().0,
                        faces@[k].ambiant_occlusion(),
                    ),
            decreases block_coords.len() - i,
        {
            let coords = block_coords[i];
            let ghost faces_before = faces@;
            self.push_faces_of_block(coords, &mut faces);
            proof {
                assert(per_block.take(i + 1).drop_last() =~= per_block.take(i as int));
                assert forall|k: int| 0 <= k < faces@.len() implies self.ambiant_occlusion_ok(
                    (#[trigger] faces@[k]).model().0,
                    faces@[k].ambiant_occlusion(),
                ) by {
                    if k < faces_before.len() {
                        assert(faces@.take(faces_before.len() as int)[k] == faces@[k]);
                        assert(faces_before[k] == faces@[k]);
                    }
                }
            }
            i = i + 1;
        }
        proof {
            assert(per_block.take(blocks.len() as int) =~= per_block);
            per_block.lemma_flatten_and_flatten_alt_are_equivalent();
        }
        faces
    }
}

/// Filtering one more element of a sequence adds it, if it passes.
proof fn lemma_filter_take_step(s: Seq<OrientedAxis>, pred: spec_fn(OrientedAxis) -> bool, k: int)
    requires
        0 <= k < s.len(),
    ensures
        s.take(k + 1).filter(pred) == if pred(s[k]) {
            s.take(k).filter(pred).push(s[k])
        } else {
            s.take(k).filter(pred)
        },
{
    reveal(Seq::filter);
    assert(s.take(k + 1).drop_last() =~= s.take(k));
}


// ---------------------------------------------------------------- meshes of the faces

/// A face mesh as plain values: the block, the normal and the vertices.
pub type FaceMeshModel = (Point3i, Vector3i, Seq<FaceVertex>);

pub open spec fn face_mesh_model(m: FaceMesh) -> FaceMeshModel {
    (m.block, m.normal, m.vertices@)
}

/// The meshes of a face to mesh: one for the face of a solid block, four half-faces for an
/// X-shaped block.
pub open spec fn meshes_of_face(f: FaceToMesh) -> Seq<FaceMeshModel> {
    match f {
        FaceToMesh::BlockFace { coords, direction, opacity_bit_cube_3_for_ambiant_occlusion, .. } => seq![
            (
                coords,
                along(direction.axis, sign_of(direction)),
                face_mesh_vertices(direction, opacity_bit_cube_3_for_ambiant_occlusion),
            ),
        ],
        FaceToMesh::XShapedBlock { coords, opacity_bit_cube_3_for_ambiant_occlusion, .. } => xshaped_offsets().map_values(
            |o: ((bool, bool), (bool, bool))|
                (
                    coords,
                    xshaped_normal(o.0, o.1),
                    xshaped_mesh_vertices(o.0, o.1, opacity_bit_cube_3_for_ambiant_occlusion),
                ),
        ),
    }
}

/// The number of vertices of the meshes of the faces: 6 for each face of a solid block, 24 for
/// each X-shaped block.
pub open spec fn vertex_count(faces: Seq<FaceToMesh>) -> int
    decreases faces.len(),
{
    if faces.len() == 0 {
        0
    } else {
        vertex_count(faces.drop_last()) + match faces.last() {
            FaceToMesh::BlockFace { .. } => 6int,
            FaceToMesh::XShapedBlock { .. } => 24int,
        }
    }
}

pub open spec fn vertices_in(meshes: Seq<FaceMesh>) -> int
    decreases meshes.len(),
{
    if meshes.len() == 0 {
        0
    } else {
        vertices_in(meshes.drop_last()) + meshes.last().vertices@.len()
    }
}

proof fn lemma_vertices_in_push(meshes: Seq<FaceMesh>, m: FaceMesh)
    ensures
        vertices_in(meshes.push(m)) == vertices_in(meshes) + m.vertices@.len(),
{
    assert(meshes.push(m).drop_last() =~= meshes);
}

/// The meshes of the faces, in order (each face of a solid block gives one, each X-shaped
/// block four), and so the vertices of the chunk's mesh: 6 per face of a solid block and 24 per
/// X-shaped block.
pub fn meshes_of_faces(faces: &Vec<FaceToMesh>) -> (r: Vec<FaceMesh>)
    ensures
        r@.map_values(|m: FaceMesh| face_mesh_model(m)) == Seq::new(
            faces@.len(),
            |i: int| meshes_of_face(faces@[i]),
        ).flatten(),
        vertices_in(r@) == vertex_count(faces@),
{
    let ghost per_face = Seq::new(faces@.len(), |i: int| meshes_of_face(faces@[i]));
    let mut meshes: Vec<FaceMesh> = Vec::new();
    let mut i: usize = 0;
    while i < faces.len()
        invariant
            i <= faces@.len(),
            per_face == Seq::new(faces@.len(), |i: int| meshes_of_face(faces@[i])),
            meshes@.map_values(|m: FaceMesh| face_mesh_model(m)) == per_face.take(i as int).flatten_alt(),
            vertices_in(meshes@) == vertex_count(faces@.take(i as int)),
        decreases faces@.len() - i,
    {
        let ghost before = meshes@;
        proof {
            assert(faces@.take(i + 1).drop_last() =~= faces@.take(i as int));
            assert(per_face.take(i + 1).drop_last() =~= per_face.take(i as int));
        }
        match &faces[i] {
            FaceToMesh::BlockFace { coords, direction, opacity_bit_cube_3_for_ambiant_occlusion, .. } => {
                let m = block_face_mesh(*direction, *coords, *opacity_bit_cube_3_for_ambiant_occlusion);
                meshes.push(m);
                proof {
                    lemma_vertices_in_push(before, m);
                    assert(meshes@.map_values(|m: FaceMesh| face_mesh_model(m)) =~= before.map_values(
                        |m: FaceMesh| face_mesh_model(m),
                    ) + meshes_of_face(faces@[i as int]));
                }
            },
            FaceToMesh::XShapedBlock { coords, opacity_bit_cube_3_for_ambiant_occlusion, .. } => {
                let cube = *opacity_bit_cube_3_for_ambiant_occlusion;
                let offsets: [((bool, bool), (bool, bool)); 4] = [
                    ((false, false), (true, true)),
                    ((true, true), (false, false)),
                    ((true, false), (false, true)),
                    ((false, true), (true, false)),
                ];
                proof {
                    assert(offsets@ == xshaped_offsets());
                }
                let mut k: usize = 0;
                while k < 4
                    invariant
                        k <= 4,
                        offsets@ == xshaped_offsets(),
                        meshes@.len() == before.len() + k,
                        meshes@.take(before.len() as int) == before,
                        forall|j: int|
                            0 <= j < k ==> face_mesh_model(#[trigger] meshes@[before.len() + j]) == (
                                *coords,
                                xshaped_normal(offsets@[j].0, offsets@[j].1),
                                xshaped_mesh_vertices(offsets@[j].0, offsets@[j].1, cube),
                            ),
                        vertices_in(meshes@) == vertices_in(before) + 6 * k,
                    decreases 4 - k,
                {
                    let ghost mid = meshes@;
                    let (a, b) = offsets[k];
                    let m = xshaped_block_face_mesh(*coords, a, b, cube);
                    meshes.push(m);
                    proof {
                        lemma_vertices_in_push(mid, m);
                        assert(meshes@.take(before.len() as int) =~= mid.take(before.len() as int));
                        assert forall|j: int| 0 <= j < k + 1 implies face_mesh_model(
                            #[trigger] meshes@[before.len() + j],
                        ) == (
                            *coords,
                            xshaped_normal(offsets@[j].0, offsets@[j].1),
                            xshaped_mesh_vertices(offsets@[j].0, offsets@[j].1, cube),
                        ) by {
                            if j < k {
                                assert(meshes@[before.len() + j] == mid[before.len() + j]);
                            }
                        }
                    }
                    k = k + 1;
                }
                proof {
                    assert(meshes@.map_values(|m: FaceMesh| face_mesh_model(m)) =~= before.map_values(
                        |m: FaceMesh| face_mesh_model(m),
                    ) + meshes_of_face(faces@[i as int])) by {
                        let lhs = meshes@.map_values(|m: FaceMesh| face_mesh_model(m));
                        let rhs = before.map_values(|m: FaceMesh| face_mesh_model(m)) + meshes_of_face(
                            faces@[i as int],
                        );
                        assert(meshes_of_face(faces@[i as int]) == xshaped_offsets().map_values(
                            |o: ((bool, bool), (bool, bool))|
                                (
                                    *coords,
                                    xshaped_normal(o.0, o.1),
                                    xshaped_mesh_vertices(o.0, o.1, cube),
                                ),
                        ));
                        assert(lhs.len() == rhs.len());
                        assert forall|j: int| 0 <= j < lhs.len() implies lhs[j] == rhs[j] by {
                            if j < before.len() {
                                assert(meshes@.take(before.len() as int)[j] == meshes@[j]);
                            } else {
                                let jj = j - before.len();
                                assert(face_mesh_model(meshes@[before.len() + jj]) == (
                                    *coords,
                                    xshaped_normal(offsets@[jj].0, offsets@[jj].1),
                                    xshaped_mesh_vertices(offsets@[jj].0, offsets@[jj].1, cube),
                                ));
                            }
                        }
                    }
                }
            },
        }
        i = i + 1;
    }
    proof {
        assert(per_face.take(faces@.len() as int) =~= per_face);
        assert(faces@.take(faces@.len() as int) =~= faces@);
        per_face.lemma_flatten_and_flatten_alt_are_equivalent();
    }
    meshes
}

} // verus!
