//! The mesh of one face of a solid block: its four corners as two triangles, with the corner of
//! the texture that each shows and its ambient occlusion, in integers (the renderer scales them:
//! half blocks for positions, 16 pixel tiles of the atlas for textures, thirds for occlusion).

use vstd::prelude::*;

use crate::block_types::Point2i;
use crate::coords::{AxisOrientation, NonOrientedAxis, OrientedAxis, Point3i, Vector3i};
use crate::coords::bit_cube::{in_cube, BitCube3, BitCube3Coords};

verus! {

/// A vertex of the mesh of a face.
#[derive(Debug, Clone, Copy, PartialEq, Eq, Structural)]
pub struct FaceVertex {
    /// The vertex relative to the center of the block, in half blocks (each coordinate is -1,
    /// 0 or 1).
    pub offset_in_half_blocks: Vector3i,
    /// The corner of the block's 16x16 texture tile that the vertex shows (each coordinate is 0
    /// or 1, in tiles, from the texture's coordinates in the atlas).
    pub texture_corner: Point2i,
    /// The ambient occlusion of the vertex, from 0 (most occluded) to 3 (not occluded).
    pub ambiant_occlusion: u8,
}

/// The mesh of a face of a block: six vertices, two triangles of the face's square.
pub struct FaceMesh {
    pub block: Point3i,
    /// The unit vector that the face looks towards.
    pub normal: Vector3i,
    pub vertices: Vec<FaceVertex>,
}

/// The other two axes of the plane of a face, in the order X, Y, Z.
pub open spec fn other_axes(axis: NonOrientedAxis) -> (NonOrientedAxis, NonOrientedAxis) {
    match axis {
        NonOrientedAxis::X => (NonOrientedAxis::Y, NonOrientedAxis::Z),
        NonOrientedAxis::Y => (NonOrientedAxis::X, NonOrientedAxis::Z),
        NonOrientedAxis::Z => (NonOrientedAxis::X, NonOrientedAxis::Y),
    }
}

/// The vector of length `v` along the axis.
pub open spec fn along(axis: NonOrientedAxis, v: int) -> Vector3i {
    match axis {
        NonOrientedAxis::X => Vector3i { x: v as i32, y: 0, z: 0 },
        NonOrientedAxis::Y => Vector3i { x: 0, y: v as i32, z: 0 },
        NonOrientedAxis::Z => Vector3i { x: 0, y: 0, z: v as i32 },
    }
}

pub open spec fn vsum(u: Vector3i, v: Vector3i) -> Vector3i {
    Vector3i { x: (u.x + v.x) as i32, y: (u.y + v.y) as i32, z: (u.z + v.z) as i32 }
}

pub open spec fn as_point(v: Vector3i) -> Point3i {
    Point3i { x: v.x, y: v.y, z: v.z }
}

pub open spec fn sign_of(face: OrientedAxis) -> int {
    match face.orientation {
        AxisOrientation::Positivewards => 1,
        AxisOrientation::Negativewards => -1,
    }
}

/// The offset of the corner `i` (0 to 3) of the face, in half blocks: on the face, and towards
/// the negative side of the first other axis for corners 0 and 1, and of the second other axis
/// for corners 0 and 2.
pub open spec fn corner_offset(face: OrientedAxis, i: int) -> Vector3i {
    let (a, b) = other_axes(face.axis);
    vsum(
        along(face.axis, sign_of(face)),
        vsum(along(a, if i < 2 { -1 } else { 1 }), along(b, if i % 2 == 0 { -1 } else { 1 })),
    )
}

/// The ambient occlusion level of a corner from the opaqueness of its two side neighbours and of
/// its corner neighbour (in the layer of blocks in front of the face).
pub open spec fn ambiant_occlusion_level(side_a: bool, side_b: bool, corner_ab: bool) -> int {
    if side_a && side_b {
        0
    } else {
        3 - ((if side_a { 1int } else { 0 }) + (if side_b { 1int } else { 0 }) + (if corner_ab {
            1int
        } else {
            0
        }))
    }
}

/// The ambient occlusion level of the corner `i` of the face.
pub open spec fn corner_ambiant_occlusion(face: OrientedAxis, cube: BitCube3, i: int) -> int {
    let (a, b) = other_axes(face.axis);
    let front = along(face.axis, sign_of(face));
    let da = if i < 2 { -1int } else { 1 };
    let db = if i % 2 == 0 { -1int } else { 1 };
    ambiant_occlusion_level(
        cube.at(as_point(vsum(front, along(a, da)))),
        cube.at(as_point(vsum(front, along(b, db)))),
        cube.at(as_point(corner_offset(face, i))),
    )
}

/// The texture is flipped horizontally on the faces X+ and Y- (so that no mirror effect shows on
/// vertical block edges).
pub open spec fn texture_flipped(face: OrientedAxis) -> bool {
    (face.axis == NonOrientedAxis::X && face.orientation == AxisOrientation::Positivewards) || (
    face.axis == NonOrientedAxis::Y && face.orientation == AxisOrientation::Negativewards)
}

/// The corner of the texture tile that the corner `i` of the face shows.
pub open spec fn corner_texture(face: OrientedAxis, i: int) -> Point2i {
    let tx = if texture_flipped(face) {
        i < 2
    } else {
        i >= 2
    };
    Point2i { x: if tx { 1 } else { 0 }, y: if i % 2 == 1 { 1 } else { 0 } }
}

pub open spec fn corner_vertex(face: OrientedAxis, cube: BitCube3, i: int) -> FaceVertex {
    FaceVertex {
        offset_in_half_blocks: corner_offset(face, i),
        texture_corner: corner_texture(face, i),
        ambiant_occlusion: corner_ambiant_occlusion(face, cube, i) as u8,
    }
}

/// The corners of the two triangles: the square is cut along the diagonal 0-3 when the
/// occlusion of corners 0 and 3 adds up to at most that of corners 1 and 2, else along the
/// diagonal 1-2; the triangles wind counter-clockwise seen from the front, so some faces take
/// the corners in the other order.
pub open spec fn face_corner_order(face: OrientedAxis, cube: BitCube3) -> Seq<int> {
    let ao = |i: int| corner_ambiant_occlusion(face, cube, i);
    let indices = if ao(0) + ao(3) <= ao(1) + ao(2) {
        seq![0int, 2, 1, 1, 2, 3]
    } else {
        seq![1int, 0, 3, 3, 0, 2]
    };
    let reverse_order = match face.axis {
        NonOrientedAxis::X => face.orientation == AxisOrientation::Negativewards,
        NonOrientedAxis::Y => face.orientation == AxisOrientation::Positivewards,
        NonOrientedAxis::Z => face.orientation == AxisOrientation::Negativewards,
    };
    if reverse_order {
        seq![indices[0], indices[2], indices[1], indices[3], indices[5], indices[4]]
    } else {
        indices
    }
}

/// The six vertices of the mesh of the face.
pub open spec fn face_mesh_vertices(face: OrientedAxis, cube: BitCube3) -> Seq<FaceVertex> {
    face_corner_order(face, cube).map_values(|i: int| corner_vertex(face, cube, i))
}

/// The vector of the given coordinates.
pub open spec fn v3(x: i32, y: i32, z: i32) -> Vector3i {
    Vector3i { x, y, z }
}

/// `v - u`, as integers.
pub open spec fn vdiff(v: Vector3i, u: Vector3i) -> (int, int, int) {
    (v.x - u.x, v.y - u.y, v.z - u.z)
}

/// The cross product `a x b`.
pub open spec fn cross(a: (int, int, int), b: (int, int, int)) -> (int, int, int) {
    (a.1 * b.2 - a.2 * b.1, a.2 * b.0 - a.0 * b.2, a.0 * b.1 - a.1 * b.0)
}

/// `(v1 - v0) x (v2 - v0)` for the triangle `v0, v1, v2`: it points towards the side from which
/// the triangle is seen counter-clockwise.
pub open spec fn triangle_cross(v0: Vector3i, v1: Vector3i, v2: Vector3i) -> (int, int, int) {
    cross(vdiff(v1, v0), vdiff(v2, v0))
}

/// The coordinate of `v` along the axis.
pub open spec fn coord_along(v: Vector3i, axis: NonOrientedAxis) -> int {
    match axis {
        NonOrientedAxis::X => v.x as int,
        NonOrientedAxis::Y => v.y as int,
        NonOrientedAxis::Z => v.z as int,
    }
}

/// The mesh of a face of a block is made of two triangles that both wind counter-clockwise seen
/// from the front of the face (from where its normal points), whatever the face and the
/// opaqueness around: for each triangle `v0, v1, v2`, `(v1 - v0) x (v2 - v0)` is the normal
/// times 4 (twice the area of a half face, in half blocks). All six vertices lie on the face:
/// their coordinate along the face's axis is half a block towards the normal.
pub proof fn law_face_triangles_wind_towards_the_normal(face: OrientedAxis, cube: BitCube3)
    ensures
        ({
            let v = face_mesh_vertices(face, cube);
            let n = along(face.axis, sign_of(face));
            &&& v.len() == 6
            &&& triangle_cross(v[0].offset_in_half_blocks, v[1].offset_in_half_blocks, v[2].offset_in_half_blocks)
                == (4 * n.x, 4 * n.y, 4 * n.z)
            &&& triangle_cross(v[3].offset_in_half_blocks, v[4].offset_in_half_blocks, v[5].offset_in_half_blocks)
                == (4 * n.x, 4 * n.y, 4 * n.z)
            &&& forall|i: int|
                0 <= i < 6 ==> coord_along(#[trigger] v[i].offset_in_half_blocks, face.axis)
                    == coord_along(n, face.axis)
        }),
{
    let c0 = corner_offset(face, 0);
    let c1 = corner_offset(face, 1);
    let c2 = corner_offset(face, 2);
    let c3 = corner_offset(face, 3);
    let v = face_mesh_vertices(face, cube);
    let order = face_corner_order(face, cube);
    assert forall|i: int| 0 <= i < 6 implies #[trigger] v[i].offset_in_half_blocks == corner_offset(face, order[i]) by {}
    match face.axis {
        NonOrientedAxis::X => {
            match face.orientation {
                AxisOrientation::Positivewards => {
                    assert(c0 == v3(1i32, -1i32, -1i32));
                    assert(c1 == v3(1i32, -1i32, 1i32));
                    assert(c2 == v3(1i32, 1i32, -1i32));
                    assert(c3 == v3(1i32, 1i32, 1i32));
                    assert(triangle_cross(v3(1i32, -1i32, -1i32), v3(1i32, 1i32, -1i32), v3(1i32, -1i32, 1i32)) == (4int, 0int, 0int)) by (nonlinear_arith);
                    assert(triangle_cross(v3(1i32, -1i32, 1i32), v3(1i32, 1i32, -1i32), v3(1i32, 1i32, 1i32)) == (4int, 0int, 0int)) by (nonlinear_arith);
                    assert(triangle_cross(v3(1i32, -1i32, 1i32), v3(1i32, -1i32, -1i32), v3(1i32, 1i32, 1i32)) == (4int, 0int, 0int)) by (nonlinear_arith);
                    assert(triangle_cross(v3(1i32, 1i32, 1i32), v3(1i32, -1i32, -1i32), v3(1i32, 1i32, -1i32)) == (4int, 0int, 0int)) by (nonlinear_arith);
                },
                AxisOrientation::Negativewards => {
                    assert(c0 == v3(-1i32, -1i32, -1i32));
                    assert(c1 == v3(-1i32, -1i32, 1i32));
                    assert(c2 == v3(-1i32, 1i32, -1i32));
                    assert(c3 == v3(-1i32, 1i32, 1i32));
                    assert(triangle_cross(v3(-1i32, -1i32, -1i32), v3(-1i32, -1i32, 1i32), v3(-1i32, 1i32, -1i32)) == (-4int, 0int, 0int)) by (nonlinear_arith);
                    assert(triangle_cross(v3(-1i32, -1i32, 1i32), v3(-1i32, 1i32, 1i32), v3(-1i32, 1i32, -1i32)) == (-4int, 0int, 0int)) by (nonlinear_arith);
                    assert(triangle_cross(v3(-1i32, -1i32, 1i32), v3(-1i32, 1i32, 1i32), v3(-1i32, -1i32, -1i32)) == (-4int, 0int, 0int)) by (nonlinear_arith);
                    assert(triangle_cross(v3(-1i32, 1i32, 1i32), v3(-1i32, 1i32, -1i32), v3(-1i32, -1i32, -1i32)) == (-4int, 0int, 0int)) by (nonlinear_arith);
                },
            }
        },
        NonOrientedAxis::Y => {
            match face.orientation {
                AxisOrientation::Positivewards => {
                    assert(c0 == v3(-1i32, 1i32, -1i32));
                    assert(c1 == v3(-1i32, 1i32, 1i32));
                    assert(c2 == v3(1i32, 1i32, -1i32));
                    assert(c3 == v3(1i32, 1i32, 1i32));
                    assert(triangle_cross(v3(-1i32, 1i32, -1i32), v3(-1i32, 1i32, 1i32), v3(1i32, 1i32, -1i32)) == (0int, 4int, 0int)) by (nonlinear_arith);
                    assert(triangle_cross(v3(-1i32, 1i32, 1i32), v3(1i32, 1i32, 1i32), v3(1i32, 1i32, -1i32)) == (0int, 4int, 0int)) by (nonlinear_arith);
                    assert(triangle_cross(v3(-1i32, 1i32, 1i32), v3(1i32, 1i32, 1i32), v3(-1i32, 1i32, -1i32)) == (0int, 4int, 0int)) by (nonlinear_arith);
                    assert(triangle_cross(v3(1i32, 1i32, 1i32), v3(1i32, 1i32, -1i32), v3(-1i32, 1i32, -1i32)) == (0int, 4int, 0int)) by (nonlinear_arith);
                },
                AxisOrientation::Negativewards => {
                    assert(c0 == v3(-1i32, -1i32, -1i32));
                    assert(c1 == v3(-1i32, -1i32, 1i32));
                    assert(c2 == v3(1i32, -1i32, -1i32));
                    assert(c3 == v3(1i32, -1i32, 1i32));
                    assert(triangle_cross(v3(-1i32, -1i32, -1i32), v3(1i32, -1i32, -1i32), v3(-1i32, -1i32, 1i32)) == (0int, -4int, 0int)) by (nonlinear_arith);
                    assert(triangle_cross(v3(-1i32, -1i32, 1i32), v3(1i32, -1i32, -1i32), v3(1i32, -1i32, 1i32)) == (0int, -4int, 0int)) by (nonlinear_arith);
                    assert(triangle_cross(v3(-1i32, -1i32, 1i32), v3(-1i32, -1i32, -1i32), v3(1i32, -1i32, 1i32)) == (0int, -4int, 0int)) by (nonlinear_arith);
                    assert(triangle_cross(v3(1i32, -1i32, 1i32), v3(-1i32, -1i32, -1i32), v3(1i32, -1i32, -1i32)) == (0int, -4int, 0int)) by (nonlinear_arith);
                },
            }
        },
        NonOrientedAxis::Z => {
            match face.orientation {
                AxisOrientation::Positivewards => {
                    assert(c0 == v3(-1i32, -1i32, 1i32));
                    assert(c1 == v3(-1i32, 1i32, 1i32));
                    assert(c2 == v3(1i32, -1i32, 1i32));
                    assert(c3 == v3(1i32, 1i32, 1i32));
                    assert(triangle_cross(v3(-1i32, -1i32, 1i32), v3(1i32, -1i32, 1i32), v3(-1i32, 1i32, 1i32)) == (0int, 0int, 4int)) by (nonlinear_arith);
                    assert(triangle_cross(v3(-1i32, 1i32, 1i32), v3(1i32, -1i32, 1i32), v3(1i32, 1i32, 1i32)) == (0int, 0int, 4int)) by (nonlinear_arith);
                    assert(triangle_cross(v3(-1i32, 1i32, 1i32), v3(-1i32, -1i32, 1i32), v3(1i32, 1i32, 1i32)) == (0int, 0int, 4int)) by (nonlinear_arith);
                    assert(triangle_cross(v3(1i32, 1i32, 1i32), v3(-1i32, -1i32, 1i32), v3(1i32, -1i32, 1i32)) == (0int, 0int, 4int)) by (nonlinear_arith);
                },
                AxisOrientation::Negativewards => {
                    assert(c0 == v3(-1i32, -1i32, -1i32));
                    assert(c1 == v3(-1i32, 1i32, -1i32));
                    assert(c2 == v3(1i32, -1i32, -1i32));
                    assert(c3 == v3(1i32, 1i32, -1i32));
                    assert(triangle_cross(v3(-1i32, -1i32, -1i32), v3(-1i32, 1i32, -1i32), v3(1i32, -1i32, -1i32)) == (0int, 0int, -4int)) by (nonlinear_arith);
                    assert(triangle_cross(v3(-1i32, 1i32, -1i32), v3(1i32, 1i32, -1i32), v3(1i32, -1i32, -1i32)) == (0int, 0int, -4int)) by (nonlinear_arith);
                    assert(triangle_cross(v3(-1i32, 1i32, -1i32), v3(1i32, 1i32, -1i32), v3(-1i32, -1i32, -1i32)) == (0int, 0int, -4int)) by (nonlinear_arith);
                    assert(triangle_cross(v3(1i32, 1i32, -1i32), v3(1i32, -1i32, -1i32), v3(-1i32, -1i32, -1i32)) == (0int, 0int, -4int)) by (nonlinear_arith);
                },
            }
        },
    }
}

fn along_exec(axis: NonOrientedAxis, v: i32) -> (r: Vector3i)
    ensures
        r == along(axis, v as int),
{
    match axis {
        NonOrientedAxis::X => Vector3i { x: v, y: 0, z: 0 },
        NonOrientedAxis::Y => Vector3i { x: 0, y: v, z: 0 },
        NonOrientedAxis::Z => Vector3i { x: 0, y: 0, z: v },
    }
}

fn vsum_exec(u: Vector3i, v: Vector3i) -> (r: Vector3i)
    requires
        -2 <= u.x <= 2 && -2 <= u.y <= 2 && -2 <= u.z <= 2,
        -2 <= v.x <= 2 && -2 <= v.y <= 2 && -2 <= v.z <= 2,
    ensures
        r == vsum(u, v),
{
    Vector3i { x: u.x + v.x, y: u.y + v.y, z: u.z + v.z }
}

/// Whether the cell of the cube at the displacement `v` (which must be in the cube) is set.
fn cube_at(cube: BitCube3, v: Vector3i) -> (r: bool)
    requires
        in_cube(as_point(v)),
    ensures
        r == cube.at(as_point(v)),
{
    cube.get(BitCube3Coords::from_point(Point3i { x: v.x, y: v.y, z: v.z }))
}

fn ambiant_occlusion_level_exec(side_a: bool, side_b: bool, corner_ab: bool) -> (r: u8)
    ensures
        r == ambiant_occlusion_level(side_a, side_b, corner_ab),
{
    if side_a && side_b {
        0
    } else {
        3 - ((if side_a { 1u8 } else { 0 }) + (if side_b { 1u8 } else { 0 }) + (if corner_ab {
            1u8
        } else {
            0
        }))
    }
}

fn corner_vertex_exec(face: OrientedAxis, cube: BitCube3, i: usize) -> (r: FaceVertex)
    requires
        i < 4,
    ensures
        r == corner_vertex(face, cube, i as int),
{
    let axes = face.axis.the_other_two_axes();
    let (a, b) = (axes[0], axes[1]);
    let sign = face.orientation.sign();
    let front = along_exec(face.axis, sign);
    let da: i32 = if i < 2 { -1 } else { 1 };
    let db: i32 = if i % 2 == 0 { -1 } else { 1 };
    let side_a_offset = vsum_exec(front, along_exec(a, da));
    let side_b_offset = vsum_exec(front, along_exec(b, db));
    let offset = vsum_exec(front, vsum_exec(along_exec(a, da), along_exec(b, db)));
    let side_a = cube_at(cube, side_a_offset);
    let side_b = cube_at(cube, side_b_offset);
    let corner_ab = cube_at(cube, offset);
    let flipped = (face.axis == NonOrientedAxis::X && face.orientation
        == AxisOrientation::Positivewards) || (face.axis == NonOrientedAxis::Y && face.orientation
        == AxisOrientation::Negativewards);
    let tx = if flipped {
        i < 2
    } else {
        i >= 2
    };
    FaceVertex {
        offset_in_half_blocks: offset,
        texture_corner: Point2i { x: if tx { 1 } else { 0 }, y: if i % 2 == 1 { 1 } else { 0 } },
        ambiant_occlusion: ambiant_occlusion_level_exec(side_a, side_b, corner_ab),
    }
}

/// The mesh of the face of the block at `block` that looks towards `face`, from the opaqueness
/// of the 3x3x3 blocks around the block (for ambient occlusion).
pub fn block_face_mesh(face: OrientedAxis, block: Point3i, neighborhood: BitCube3) -> (r: FaceMesh)
    ensures
        r.block == block,
        r.normal == along(face.axis, sign_of(face)),
        r.vertices@ == face_mesh_vertices(face, neighborhood),
{
    let mut corners: Vec<FaceVertex> = Vec::new();
    let mut i: usize = 0;
    while i < 4
        invariant
            i <= 4,
            corners@.len() == i,
            forall|j: int| 0 <= j < i ==> corners@[j] == corner_vertex(face, neighborhood, j),
        decreases 4 - i,
    {
        corners.push(corner_vertex_exec(face, neighborhood, i));
        i = i + 1;
    }
    let ao0 = corners[0].ambiant_occlusion as u32;
    let ao1 = corners[1].ambiant_occlusion as u32;
    let ao2 = corners[2].ambiant_occlusion as u32;
    let ao3 = corners[3].ambiant_occlusion as u32;
    let indices: [usize; 6] = if ao0 + ao3 <= ao1 + ao2 {
        [0, 2, 1, 1, 2, 3]
    } else {
        [1, 0, 3, 3, 0, 2]
    };
    let reverse_order = match face.axis {
        NonOrientedAxis::X => face.orientation == AxisOrientation::Negativewards,
        NonOrientedAxis::Y => face.orientation == AxisOrientation::Positivewards,
        NonOrientedAxis::Z => face.orientation == AxisOrientation::Negativewards,
    };
    let order: [usize; 6] = if reverse_order {
        [indices[0], indices[2], indices[1], indices[3], indices[5], indices[4]]
    } else {
        indices
    };
    let ghost expected = face_corner_order(face, neighborhood);
    proof {
        assert(order@.map_values(|k: usize| k as int) =~= expected);
    }
    let mut vertices: Vec<FaceVertex> = Vec::new();
    let mut k: usize = 0;
    while k < 6
        invariant
            k <= 6,
            corners@.len() == 4,
            forall|j: int| 0 <= j < 4 ==> corners@[j] == corner_vertex(face, neighborhood, j),
            forall|j: int| 0 <= j < 6 ==> order@[j] < 4 && order@[j] as int == #[trigger] expected[j],
            expected.len() == 6,
            vertices@ =~= expected.take(k as int).map_values(|j: int| corner_vertex(face, neighborhood, j)),
        decreases 6 - k,
    {
        assert(order@[k as int] as int == expected[k as int]);
        vertices.push(corners[order[k]]);
        k = k + 1;
    }
    proof {
        assert(expected.take(6) =~= expected);
    }
    FaceMesh { block, normal: along_exec(face.axis, face.orientation.sign()), vertices }
}


// ---------------------------------------------------------------- X-shaped blocks

/// The four half-faces of an X-shaped block, each by the horizontal offsets (towards the
/// positive side, per axis X and Y) of its two vertical edges.
pub open spec fn xshaped_offsets() -> Seq<((bool, bool), (bool, bool))> {
    seq![
        ((false, false), (true, true)),
        ((true, true), (false, false)),
        ((true, false), (false, true)),
        ((false, true), (true, false)),
    ]
}

pub open spec fn half(positive: bool) -> int {
    if positive {
        1
    } else {
        -1
    }
}

/// The offset of the corner `i` (0 to 3) of the half-face of the X-shaped block whose vertical
/// edges are at the horizontal offsets `a` and `b`: corners 0 and 2 on edge `a`, 1 and 3 on
/// edge `b`, 0 and 1 at the bottom.
pub open spec fn xshaped_corner_offset(a: (bool, bool), b: (bool, bool), i: int) -> Vector3i {
    let e = if i % 2 == 0 {
        a
    } else {
        b
    };
    Vector3i { x: half(e.0) as i32, y: half(e.1) as i32, z: if i < 2 { -1i32 } else { 1i32 } }
}

/// The ambient occlusion level of the corner `i`, from the blocks around the X-shaped block at
/// its own height.
pub open spec fn xshaped_corner_ambiant_occlusion(
    a: (bool, bool),
    b: (bool, bool),
    cube: BitCube3,
    i: int,
) -> int {
    let e = if i % 2 == 0 {
        a
    } else {
        b
    };
    let (dx, dy) = (half(e.0), half(e.1));
    ambiant_occlusion_level(
        cube.at(Point3i { x: dx as i32, y: 0, z: 0 }),
        cube.at(Point3i { x: 0, y: dy as i32, z: 0 }),
        cube.at(Point3i { x: dx as i32, y: dy as i32, z: 0 }),
    )
}

pub open spec fn xshaped_corner_vertex(a: (bool, bool), b: (bool, bool), cube: BitCube3, i: int) -> FaceVertex {
    FaceVertex {
        offset_in_half_blocks: xshaped_corner_offset(a, b, i),
        texture_corner: Point2i { x: if i % 2 == 1 { 1 } else { 0 }, y: if i >= 2 { 1 } else { 0 } },
        ambiant_occlusion: xshaped_corner_ambiant_occlusion(a, b, cube, i) as u8,
    }
}

/// The six vertices of a half-face of an X-shaped block: the corners 1, 0, 3, 3, 0, 2.
pub open spec fn xshaped_mesh_vertices(a: (bool, bool), b: (bool, bool), cube: BitCube3) -> Seq<FaceVertex> {
    seq![1int, 0, 3, 3, 0, 2].map_values(|i: int| xshaped_corner_vertex(a, b, cube, i))
}

/// The direction the half-face looks towards (not of unit length): the horizontal direction
/// from edge `a` to edge `b`, turned a quarter to the right.
pub open spec fn xshaped_normal(a: (bool, bool), b: (bool, bool)) -> Vector3i {
    Vector3i { x: (half(a.1) - half(b.1)) as i32, y: (half(b.0) - half(a.0)) as i32, z: 0 }
}

/// On the four side faces of a block the texture is laid the same way seen from the front (so
/// that no mirror effect shows on vertical edges): each vertex shows the texture's column 1
/// exactly when it is on the left edge of the face seen from the front (with Z up), and its row
/// 1 exactly when it is on the top edge.
pub proof fn law_side_faces_show_the_texture_unmirrored(face: OrientedAxis, cube: BitCube3)
    requires
        face.axis != NonOrientedAxis::Z,
    ensures
        ({
            let v = face_mesh_vertices(face, cube);
            let n = along(face.axis, sign_of(face));
            forall|k: int|
                0 <= k < 6 ==> {
                    let o = (#[trigger] v[k]).offset_in_half_blocks;
                    &&& (v[k].texture_corner.x == 1 <==> o.x * n.y - o.y * n.x == 1)
                    &&& (v[k].texture_corner.y == 1 <==> o.z == 1)
                }
        }),
{
    let v = face_mesh_vertices(face, cube);
    let order = face_corner_order(face, cube);
    assert forall|k: int| 0 <= k < 6 implies #[trigger] v[k] == corner_vertex(face, cube, order[k])
        && 0 <= order[k] < 4 by {}
}

/// A half-face of an X-shaped block is made of two triangles that both wind counter-clockwise
/// seen from the side its normal points to: for each triangle `v0, v1, v2`,
/// `(v1 - v0) x (v2 - v0)` is twice the normal. Its six vertices stand on its two vertical
/// edges, at the horizontal offsets `a` and `b`.
pub proof fn law_xshaped_triangles_wind_towards_the_normal(a: (bool, bool), b: (bool, bool), cube: BitCube3)
    ensures
        ({
            let v = xshaped_mesh_vertices(a, b, cube);
            let n = xshaped_normal(a, b);
            &&& v.len() == 6
            &&& triangle_cross(v[0].offset_in_half_blocks, v[1].offset_in_half_blocks, v[2].offset_in_half_blocks)
                == (2 * n.x, 2 * n.y, 2 * n.z)
            &&& triangle_cross(v[3].offset_in_half_blocks, v[4].offset_in_half_blocks, v[5].offset_in_half_blocks)
                == (2 * n.x, 2 * n.y, 2 * n.z)
            &&& forall|i: int|
                0 <= i < 6 ==> {
                    let o = #[trigger] v[i].offset_in_half_blocks;
                    (o.x == half(a.0) && o.y == half(a.1)) || (o.x == half(b.0) && o.y == half(b.1))
                }
        }),
{
    let v = xshaped_mesh_vertices(a, b, cube);
    let ax = half(a.0);
    let ay = half(a.1);
    let bx = half(b.0);
    let by = half(b.1);
    assert(v[0].offset_in_half_blocks == xshaped_corner_offset(a, b, 1));
    assert(v[1].offset_in_half_blocks == xshaped_corner_offset(a, b, 0));
    assert(v[2].offset_in_half_blocks == xshaped_corner_offset(a, b, 3));
    assert(v[3].offset_in_half_blocks == xshaped_corner_offset(a, b, 3));
    assert(v[4].offset_in_half_blocks == xshaped_corner_offset(a, b, 0));
    assert(v[5].offset_in_half_blocks == xshaped_corner_offset(a, b, 2));
    let p0 = v[0].offset_in_half_blocks;
    let p1 = v[1].offset_in_half_blocks;
    let p2 = v[2].offset_in_half_blocks;
    let p3 = v[3].offset_in_half_blocks;
    let p4 = v[4].offset_in_half_blocks;
    let p5 = v[5].offset_in_half_blocks;
    let n = xshaped_normal(a, b);
    assert(p0.x == bx && p0.y == by && p0.z == -1);
    assert(p1.x == ax && p1.y == ay && p1.z == -1);
    assert(p2.x == bx && p2.y == by && p2.z == 1);
    assert(p4.x == ax && p4.y == ay && p4.z == -1);
    assert(p5.x == ax && p5.y == ay && p5.z == 1);
    assert(n.x == ay - by && n.y == bx - ax && n.z == 0);
    assert(triangle_cross(p0, p1, p2) == (2 * n.x, 2 * n.y, 2 * n.z)) by (nonlinear_arith)
        requires
            p0.x == bx && p0.y == by && p0.z == -1,
            p1.x == ax && p1.y == ay && p1.z == -1,
            p2.x == bx && p2.y == by && p2.z == 1,
            n.x == ay - by && n.y == bx - ax && n.z == 0,
    ;
    assert(triangle_cross(p3, p4, p5) == (2 * n.x, 2 * n.y, 2 * n.z)) by (nonlinear_arith)
        requires
            p3.x == bx && p3.y == by && p3.z == 1,
            p4.x == ax && p4.y == ay && p4.z == -1,
            p5.x == ax && p5.y == ay && p5.z == 1,
            n.x == ay - by && n.y == bx - ax && n.z == 0,
    ;
}

/// The ambient occlusion level of a corner is 3 when none of its three neighbours is opaque,
/// 0 when both side neighbours are, between 0 and 3 always, and it never grows when more of
/// the neighbours are opaque.
pub proof fn law_ambiant_occlusion_level(
    side_a: bool,
    side_b: bool,
    corner_ab: bool,
    side_a2: bool,
    side_b2: bool,
    corner_ab2: bool,
)
    ensures
        0 <= ambiant_occlusion_level(side_a, side_b, corner_ab) <= 3,
        ambiant_occlusion_level(side_a, side_b, corner_ab) == 3 <==> (!side_a && !side_b && !corner_ab),
        side_a && side_b ==> ambiant_occlusion_level(side_a, side_b, corner_ab) == 0,
        (side_a ==> side_a2) && (side_b ==> side_b2) && (corner_ab ==> corner_ab2) ==> ambiant_occlusion_level(
            side_a2,
            side_b2,
            corner_ab2,
        ) <= ambiant_occlusion_level(side_a, side_b, corner_ab),
{
}

fn half_exec(positive: bool) -> (r: i32)
    ensures
        r == half(positive),
{
    if positive {
        1
    } else {
        -1
    }
}

fn xshaped_corner_vertex_exec(a: (bool, bool), b: (bool, bool), cube: BitCube3, i: usize) -> (r: FaceVertex)
    requires
        i < 4,
    ensures
        r == xshaped_corner_vertex(a, b, cube, i as int),
{
    let e = if i % 2 == 0 {
        a
    } else {
        b
    };
    let dx = half_exec(e.0);
    let dy = half_exec(e.1);
    let side_a = cube_at(cube, Vector3i { x: dx, y: 0, z: 0 });
    let side_b = cube_at(cube, Vector3i { x: 0, y: dy, z: 0 });
    let corner_ab = cube_at(cube, Vector3i { x: dx, y: dy, z: 0 });
    FaceVertex {
        offset_in_half_blocks: Vector3i { x: dx, y: dy, z: if i < 2 { -1 } else { 1 } },
        texture_corner: Point2i { x: if i % 2 == 1 { 1 } else { 0 }, y: if i >= 2 { 1 } else { 0 } },
        ambiant_occlusion: ambiant_occlusion_level_exec(side_a, side_b, corner_ab),
    }
}

/// The mesh of the half-face of the X-shaped block at `block` whose vertical edges are at the
/// horizontal offsets `a` and `b`, from the opaqueness of the blocks around it.
pub fn xshaped_block_face_mesh(block: Point3i, a: (bool, bool), b: (bool, bool), neighborhood: BitCube3) -> (r:
    FaceMesh)
    ensures
        r.block == block,
        r.normal == xshaped_normal(a, b),
        r.vertices@ == xshaped_mesh_vertices(a, b, neighborhood),
{
    let c0 = xshaped_corner_vertex_exec(a, b, neighborhood, 0);
    let c1 = xshaped_corner_vertex_exec(a, b, neighborhood, 1);
    let c2 = xshaped_corner_vertex_exec(a, b, neighborhood, 2);
    let c3 = xshaped_corner_vertex_exec(a, b, neighborhood, 3);
    let vertices = vec![c1, c0, c3, c3, c0, c2];
    proof {
        assert(vertices@ =~= xshaped_mesh_vertices(a, b, neighborhood));
    }
    let normal = Vector3i {
        x: half_exec(a.1) - half_exec(b.1),
        y: half_exec(b.0) - half_exec(a.0),
        z: 0,
    };
    FaceMesh { block, normal, vertices }
}

} // verus!
