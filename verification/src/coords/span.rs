//! Rectangular areas of the voxel grid: chunks and boxes of blocks, and the order in which
//! their blocks are visited.

use vstd::prelude::*;
use vstd::arithmetic::div_mod::lemma_fundamental_div_mod_converse;
use crate::coords::{in_i32, pt, AxisOrientation, NonOrientedAxis, OrientedAxis, Point3i, Vector3i};

verus! {

/// Whether `p` lies in the rectangle `inf..sup_excluded` (the upper bound excluded on each axis).
pub open spec fn in_rect(inf: Point3i, sup_excluded: Point3i, p: Point3i) -> bool {
    &&& inf.x <= p.x < sup_excluded.x
    &&& inf.y <= p.y < sup_excluded.y
    &&& inf.z <= p.z < sup_excluded.z
}

/// Whether the rectangle `inf..sup_excluded` is well formed (possibly empty).
pub open spec fn rect_wf(inf: Point3i, sup_excluded: Point3i) -> bool {
    inf.x <= sup_excluded.x && inf.y <= sup_excluded.y && inf.z <= sup_excluded.z
}

/// The number of blocks in the rectangle `inf..sup_excluded`.
pub open spec fn rect_volume(inf: Point3i, sup_excluded: Point3i) -> int {
    (sup_excluded.x - inf.x) * (sup_excluded.y - inf.y) * (sup_excluded.z - inf.z)
}

/// The `i`-th block of the rectangle `inf..sup_excluded` when it is walked X first, then Y,
/// then Z.
pub open spec fn rect_point(inf: Point3i, sup_excluded: Point3i, i: int) -> Point3i {
    let dx = sup_excluded.x - inf.x;
    let dy = sup_excluded.y - inf.y;
    pt(inf.x + i % dx, inf.y + (i / dx) % dy, inf.z + i / (dx * dy))
}

/// All the blocks of the rectangle `inf..sup_excluded`, X varying first, then Y, then Z.
pub open spec fn rect_seq(inf: Point3i, sup_excluded: Point3i) -> Seq<Point3i> {
    Seq::new(
        rect_volume(inf, sup_excluded) as nat,
        |i: int| rect_point(inf, sup_excluded, i),
    )
}

/// The position of the block `(x, y, z)` in `rect_seq(inf, sup_excluded)`.
pub open spec fn rect_index(inf: Point3i, sup_excluded: Point3i, x: int, y: int, z: int) -> int {
    ((z - inf.z) * (sup_excluded.y - inf.y) + (y - inf.y)) * (sup_excluded.x - inf.x) + (x - inf.x)
}

proof fn lemma_rect_point(inf: Point3i, sup_excluded: Point3i, x: int, y: int, z: int)
    requires
        inf.x <= x < sup_excluded.x,
        inf.y <= y < sup_excluded.y,
        inf.z <= z < sup_excluded.z,
    ensures
        rect_point(inf, sup_excluded, rect_index(inf, sup_excluded, x, y, z)) == pt(x, y, z),
        0 <= rect_index(inf, sup_excluded, x, y, z) < rect_volume(inf, sup_excluded),
{
    let dx = sup_excluded.x - inf.x;
    let dy = sup_excluded.y - inf.y;
    let dz = sup_excluded.z - inf.z;
    let xx = x - inf.x;
    let yy = y - inf.y;
    let zz = z - inf.z;
    let k = (zz * dy + yy) * dx + xx;
    assert(k == rect_index(inf, sup_excluded, x, y, z));
    lemma_fundamental_div_mod_converse(k, dx, zz * dy + yy, xx);
    lemma_fundamental_div_mod_converse(zz * dy + yy, dy, zz, yy);
    assert(k == zz * (dx * dy) + (yy * dx + xx) && 0 <= yy * dx + xx < dx * dy) by (nonlinear_arith)
        requires
            k == (zz * dy + yy) * dx + xx,
            0 <= xx < dx,
            0 <= yy < dy,
    ;
    lemma_fundamental_div_mod_converse(k, dx * dy, zz, yy * dx + xx);
    assert(0 <= k < dx * dy * dz) by (nonlinear_arith)
        requires
            k == zz * (dx * dy) + (yy * dx + xx),
            0 <= yy * dx + xx < dx * dy,
            0 <= zz < dz,
    ;
}

/// The blocks listed by `rect_seq` are exactly the blocks of the rectangle: each listed block
/// lies in it, and each block of it is listed, at its `rect_index`.
pub proof fn lemma_rect_seq_is_the_rect(inf: Point3i, sup_excluded: Point3i)
    requires
        rect_wf(inf, sup_excluded),
    ensures
        forall|i: int|
            0 <= i < rect_seq(inf, sup_excluded).len() ==> in_rect(
                inf,
                sup_excluded,
                #[trigger] rect_seq(inf, sup_excluded)[i],
            ),
        forall|p: Point3i|
            #[trigger] in_rect(inf, sup_excluded, p) ==> {
                let i = rect_index(inf, sup_excluded, p.x as int, p.y as int, p.z as int);
                &&& 0 <= i < rect_seq(inf, sup_excluded).len()
                &&& rect_seq(inf, sup_excluded)[i] == p
            },
{
    let dx = sup_excluded.x - inf.x;
    let dy = sup_excluded.y - inf.y;
    let dz = sup_excluded.z - inf.z;
    assert forall|i: int| 0 <= i < rect_seq(inf, sup_excluded).len() implies in_rect(
        inf,
        sup_excluded,
        #[trigger] rect_seq(inf, sup_excluded)[i],
    ) by {
        assert(0 <= i % dx < dx && 0 <= (i / dx) % dy < dy && 0 <= i / (dx * dy) < dz)
            by (nonlinear_arith)
            requires
                0 <= i < dx * dy * dz,
                0 <= dx,
                0 <= dy,
                0 <= dz,
        {
            assert(dx > 0 && dy > 0 && dz > 0);
            assert(0 < dx * dy);
            assert(i / (dx * dy) < dz);
        }
    }
    assert forall|p: Point3i| #[trigger] in_rect(inf, sup_excluded, p) implies {
        let i = rect_index(inf, sup_excluded, p.x as int, p.y as int, p.z as int);
        &&& 0 <= i < rect_seq(inf, sup_excluded).len()
        &&& rect_seq(inf, sup_excluded)[i] == p
    } by {
        lemma_rect_point(inf, sup_excluded, p.x as int, p.y as int, p.z as int);
    }
}

/// Lists the 3D rectangle area `inf..sup_excluded` (`sup_excluded` not included),
/// X varying first, then Y, then Z.
pub fn iter_3d_rect_inf_sup_excluded(inf: Point3i, sup_excluded: Point3i) -> (r: Vec<Point3i>)
    requires
        rect_wf(inf, sup_excluded),
    ensures
        r@ == rect_seq(inf, sup_excluded),
{
    let ghost dx = sup_excluded.x - inf.x;
    let ghost dy = sup_excluded.y - inf.y;
    let mut r: Vec<Point3i> = Vec::new();
    let mut z: i32 = inf.z;
    assert((z - inf.z) * dy * dx == 0) by (nonlinear_arith)
        requires
            z == inf.z,
    ;
    while z < sup_excluded.z
        invariant
            rect_wf(inf, sup_excluded),
            dx == sup_excluded.x - inf.x,
            dy == sup_excluded.y - inf.y,
            inf.z <= z <= sup_excluded.z,
            r.len() == (z - inf.z) * dy * dx,
            forall|k: int| 0 <= k < r.len() ==> r@[k] == rect_point(inf, sup_excluded, k),
        decreases sup_excluded.z - z,
    {
        let mut y: i32 = inf.y;
        while y < sup_excluded.y
            invariant
                rect_wf(inf, sup_excluded),
                dx == sup_excluded.x - inf.x,
                dy == sup_excluded.y - inf.y,
                inf.z <= z < sup_excluded.z,
                inf.y <= y <= sup_excluded.y,
                r.len() == ((z - inf.z) * dy + (y - inf.y)) * dx,
                forall|k: int| 0 <= k < r.len() ==> r@[k] == rect_point(inf, sup_excluded, k),
            decreases sup_excluded.y - y,
        {
            let mut x: i32 = inf.x;
            while x < sup_excluded.x
                invariant
                    rect_wf(inf, sup_excluded),
                    dx == sup_excluded.x - inf.x,
                    dy == sup_excluded.y - inf.y,
                    inf.z <= z < sup_excluded.z,
                    inf.y <= y < sup_excluded.y,
                    inf.x <= x <= sup_excluded.x,
                    r.len() == rect_index(inf, sup_excluded, x as int, y as int, z as int),
                    forall|k: int| 0 <= k < r.len() ==> r@[k] == rect_point(inf, sup_excluded, k),
                decreases sup_excluded.x - x,
            {
                proof {
                    lemma_rect_point(inf, sup_excluded, x as int, y as int, z as int);
                }
                r.push(Point3i { x, y, z });
                x = x + 1;
            }
            assert(((z - inf.z) * dy + (y - inf.y)) * dx + dx == ((z - inf.z) * dy + (y + 1 - inf.y))
                * dx) by (nonlinear_arith);
            y = y + 1;
        }
        assert(((z - inf.z) * dy + dy) * dx == (z + 1 - inf.z) * dy * dx) by (nonlinear_arith);
        z = z + 1;
    }
    assert(r@ =~= rect_seq(inf, sup_excluded)) by {
        assert((sup_excluded.z - inf.z) * dy * dx == rect_volume(inf, sup_excluded)) by (nonlinear_arith)
            requires
                dx == sup_excluded.x - inf.x,
                dy == sup_excluded.y - inf.y,
        ;
    }
    r
}

/// Lists the 3D rectangle area `inf..=sup_included` (`sup_included` is included).
pub fn iter_3d_rect_inf_sup_included(inf: Point3i, sup_included: Point3i) -> (r: Vec<Point3i>)
    requires
        sup_included.x < i32::MAX && sup_included.y < i32::MAX && sup_included.z < i32::MAX,
        rect_wf(inf, pt(sup_included.x + 1, sup_included.y + 1, sup_included.z + 1)),
    ensures
        r@ == rect_seq(inf, pt(sup_included.x + 1, sup_included.y + 1, sup_included.z + 1)),
{
    let sup_excluded = Point3i { x: sup_included.x + 1, y: sup_included.y + 1, z: sup_included.z + 1 };
    iter_3d_rect_inf_sup_excluded(inf, sup_excluded)
}

/// Lists the 3D rectangle area `inf..(inf + dims)` (`inf + dims` not included).
pub fn iter_3d_rect_inf_dims(inf: Point3i, dims: Vector3i) -> (r: Vec<Point3i>)
    requires
        0 <= dims.x && 0 <= dims.y && 0 <= dims.z,
        in_i32(inf.x + dims.x) && in_i32(inf.y + dims.y) && in_i32(inf.z + dims.z),
    ensures
        r@ == rect_seq(inf, inf.moved(dims)),
{
    let sup = inf.add(dims);
    iter_3d_rect_inf_sup_excluded(inf, sup)
}

/// Lists a 3D cubic area of negativewards corner at `inf` and edges of length `edge`.
pub fn iter_3d_cube_inf_edge(inf: Point3i, edge: i32) -> (r: Vec<Point3i>)
    requires
        0 <= edge,
        in_i32(inf.x + edge) && in_i32(inf.y + edge) && in_i32(inf.z + edge),
    ensures
        r@ == rect_seq(inf, pt(inf.x + edge, inf.y + edge, inf.z + edge)),
{
    iter_3d_rect_inf_dims(inf, Vector3i { x: edge, y: edge, z: edge })
}

/// The corner (negativewards) of the cube of the given center and radius, where a radius of 0
/// gives an empty cube at the center and a radius of 1 gives just the center.
pub open spec fn cube_inf(center: Point3i, radius: int) -> Point3i {
    if radius == 0 {
        center
    } else {
        pt(center.x - (radius - 1), center.y - (radius - 1), center.z - (radius - 1))
    }
}

/// The edge length of the cube of the given radius.
pub open spec fn cube_edge(radius: int) -> int {
    if radius == 0 {
        0
    } else {
        radius * 2 - 1
    }
}

/// Whether the cube of the given center and radius can be computed without leaving `i32` (a
/// radius of 0 computes nothing from the center).
pub open spec fn cube_fits(center: Point3i, radius: int) -> bool {
    &&& 0 <= radius
    &&& radius * 2 <= i32::MAX
    &&& radius > 0 ==> {
        &&& in_i32(center.x - (radius - 1)) && in_i32(center.y - (radius - 1)) && in_i32(
            center.z - (radius - 1),
        )
        &&& in_i32(center.x + radius) && in_i32(center.y + radius) && in_i32(center.z + radius)
    }
}

/// Lists a 3D cubic area of the given center and radius.
///
/// A radius of 0 gives nothing and a radius of 1 gives just the center.
pub fn iter_3d_cube_center_radius(center: Point3i, radius: i32) -> (r: Vec<Point3i>)
    requires
        cube_fits(center, radius as int),
    ensures
        ({
            let inf = cube_inf(center, radius as int);
            let e = cube_edge(radius as int);
            r@ == rect_seq(inf, pt(inf.x + e, inf.y + e, inf.z + e))
        }),
{
    if radius == 0 {
        iter_3d_cube_inf_edge(center, 0)
    } else {
        iter_3d_cube_inf_edge(
            Point3i {
                x: center.x - (radius - 1),
                y: center.y - (radius - 1),
                z: center.z - (radius - 1),
            },
            radius * 2 - 1,
        )
    }
}

/// The length (in blocks) of the edge of the cubic chunks, which are all of the same size
/// and arranged in a 3D grid.
#[derive(Debug, Clone, Copy, PartialEq, Eq, Structural)]
pub struct ChunkDimensions {
    pub edge: i32,
}

impl From<i32> for ChunkDimensions {
    fn from(chunk_side_length: i32) -> (r: ChunkDimensions) {
        ChunkDimensions { edge: chunk_side_length }
    }
}

impl vstd::std_specs::convert::FromSpecImpl<i32> for ChunkDimensions {
    open spec fn obeys_from_spec() -> bool {
        true
    }

    open spec fn from_spec(v: i32) -> ChunkDimensions {
        ChunkDimensions { edge: v }
    }
}

impl ChunkDimensions {
    pub fn number_of_blocks_in_a_chunk(self) -> (r: usize)
        requires
            0 <= self.edge,
            self.edge * self.edge * self.edge <= i32::MAX,
        ensures
            r == self.edge * self.edge * self.edge,
    {
        let e = self.edge;
        assert(e * e <= i32::MAX) by (nonlinear_arith)
            requires
                0 <= e,
                e * e * e <= i32::MAX,
        {
            if e > 0 {
                assert(e * e <= e * e * e);
            }
        }
        (e * e * e) as usize
    }

    pub fn _dimensions(self) -> (r: Vector3i)
        ensures
            r == (Vector3i { x: self.edge, y: self.edge, z: self.edge }),
    {
        Vector3i { x: self.edge, y: self.edge, z: self.edge }
    }

    /// The coordinates of the chunk that contains the block at the given coordinates.
    pub fn world_coords_to_containing_chunk_coords(self, coords: Point3i) -> (r: Point3i)
        requires
            0 < self.edge,
        ensures
            r == pt(
                coords.x as int / self.edge as int,
                coords.y as int / self.edge as int,
                coords.z as int / self.edge as int,
            ),
    {
        Point3i {
            x: div_floor(coords.x, self.edge),
            y: div_floor(coords.y, self.edge),
            z: div_floor(coords.z, self.edge),
        }
    }
}

/// Euclidean division by a positive divisor (the quotient rounded towards negative infinity).
fn div_floor(a: i32, d: i32) -> (r: i32)
    requires
        0 < d,
    ensures
        r == a as int / d as int,
{
    assert(i32::MIN <= a as int / d as int <= i32::MAX) by (nonlinear_arith)
        requires
            0 < d,
            i32::MIN <= a <= i32::MAX,
    {
        if a >= 0 {
            assert(a as int / d as int <= a);
        } else {
            assert(a as int / d as int >= a);
        }
    }
    match a.checked_div_euclid(d) {
        Some(q) => q,
        None => 0,
    }
}

/// The cubic area of the voxel grid that is in the chunk at the given chunk coordinates.
#[derive(Debug, Clone, Copy, PartialEq, Eq, Structural)]
pub struct ChunkCoordsSpan {
    pub cd: ChunkDimensions,
    pub chunk_coords: Point3i,
}

impl ChunkCoordsSpan {
    /// The negativewards corner of the chunk (included).
    pub open spec fn inf_spec(self) -> Point3i {
        let c = self.chunk_coords;
        let e = self.cd.edge as int;
        pt(c.x * e, c.y * e, c.z * e)
    }

    /// The positivewards corner of the chunk (excluded).
    pub open spec fn sup_spec(self) -> Point3i {
        let c = self.chunk_coords;
        let e = self.cd.edge as int;
        pt((c.x + 1) * e, (c.y + 1) * e, (c.z + 1) * e)
    }

    /// Whether the corners of the chunk can be computed in `i32`.
    pub open spec fn fits(self) -> bool {
        let c = self.chunk_coords;
        let e = self.cd.edge as int;
        &&& in_i32(c.x * e) && in_i32(c.y * e) && in_i32(c.z * e)
        &&& c.x < i32::MAX && c.y < i32::MAX && c.z < i32::MAX
        &&& in_i32((c.x + 1) * e) && in_i32((c.y + 1) * e) && in_i32((c.z + 1) * e)
    }

    /// The corners of the chunk are ordered, and `edge` apart.
    pub proof fn lemma_wf(self)
        requires
            self.fits(),
            0 <= self.cd.edge,
        ensures
            rect_wf(self.inf_spec(), self.sup_spec()),
            self.sup_spec().x == self.inf_spec().x + self.cd.edge,
            self.sup_spec().y == self.inf_spec().y + self.cd.edge,
            self.sup_spec().z == self.inf_spec().z + self.cd.edge,
            self.cd.edge == 0 ==> self.inf_spec() == pt(0, 0, 0),
    {
        let c = self.chunk_coords;
        let e = self.cd.edge as int;
        assert((c.x + 1) * e == c.x * e + e && (c.y + 1) * e == c.y * e + e && (c.z + 1) * e
            == c.z * e + e) by (nonlinear_arith);
        assert(e == 0 ==> c.x * e == 0 && c.y * e == 0 && c.z * e == 0) by (nonlinear_arith);
    }

    pub fn block_coords_inf(self) -> (r: Point3i)
        requires
            self.fits(),
        ensures
            r == self.inf_spec(),
    {
        let e = self.cd.edge;
        Point3i { x: self.chunk_coords.x * e, y: self.chunk_coords.y * e, z: self.chunk_coords.z * e }
    }

    pub fn block_coords_sup_excluded(self) -> (r: Point3i)
        requires
            self.fits(),
        ensures
            r == self.sup_spec(),
    {
        let e = self.cd.edge;
        let c = self.chunk_coords;
        Point3i { x: (c.x + 1) * e, y: (c.y + 1) * e, z: (c.z + 1) * e }
    }

    /// Lists the blocks of the chunk, X varying first, then Y, then Z.
    pub fn iter_coords(self) -> (r: Vec<Point3i>)
        requires
            self.fits(),
            0 <= self.cd.edge,
        ensures
            r@ == rect_seq(self.inf_spec(), self.sup_spec()),
    {
        proof {
            self.lemma_wf();
        }
        iter_3d_rect_inf_sup_excluded(self.block_coords_inf(), self.block_coords_sup_excluded())
    }

    pub fn contains(self, coords: Point3i) -> (r: bool)
        requires
            self.fits(),
        ensures
            r == in_rect(self.inf_spec(), self.sup_spec(), coords),
    {
        let inf = self.block_coords_inf();
        let sup_excluded = self.block_coords_sup_excluded();
        (inf.x <= coords.x && coords.x < sup_excluded.x) && (inf.y <= coords.y && coords.y
            < sup_excluded.y) && (inf.z <= coords.z && coords.z < sup_excluded.z)
    }

    /// The negativewards corner of the layer of blocks of the chunk that touch its face
    /// towards `face`.
    pub open spec fn face_inf(self, face: OrientedAxis) -> Point3i {
        let inf = self.inf_spec();
        let shift = self.cd.edge - 1;
        if face.orientation == AxisOrientation::Positivewards {
            match face.axis {
                NonOrientedAxis::X => pt(inf.x + shift, inf.y as int, inf.z as int),
                NonOrientedAxis::Y => pt(inf.x as int, inf.y + shift, inf.z as int),
                NonOrientedAxis::Z => pt(inf.x as int, inf.y as int, inf.z + shift),
            }
        } else {
            inf
        }
    }

    /// The dimensions of the layer of blocks of the chunk that touch one of its faces
    /// orthogonal to `axis`.
    pub open spec fn face_dims(self, axis: NonOrientedAxis) -> Vector3i {
        let e = self.cd.edge;
        match axis {
            NonOrientedAxis::X => Vector3i { x: 1, y: e, z: e },
            NonOrientedAxis::Y => Vector3i { x: e, y: 1, z: e },
            NonOrientedAxis::Z => Vector3i { x: e, y: e, z: 1 },
        }
    }

    /// Lists the blocks (contained in the chunk) that touch the chunk face towards
    /// `face_orientation`.
    pub fn iter_block_coords_on_chunk_face(self, face_orientation: OrientedAxis) -> (r: Vec<
        Point3i,
    >)
        requires
            self.fits(),
            0 <= self.cd.edge,
        ensures
            r@ == rect_seq(
                self.face_inf(face_orientation),
                self.face_inf(face_orientation).moved(self.face_dims(face_orientation.axis)),
            ),
    {
        proof {
            self.lemma_wf();
        }
        let e = self.cd.edge;
        let inf = self.block_coords_inf();
        let dims = match face_orientation.axis {
            NonOrientedAxis::X => Vector3i { x: 1, y: e, z: e },
            NonOrientedAxis::Y => Vector3i { x: e, y: 1, z: e },
            NonOrientedAxis::Z => Vector3i { x: e, y: e, z: 1 },
        };
        let inf = if face_orientation.orientation == AxisOrientation::Positivewards {
            match face_orientation.axis {
                NonOrientedAxis::X => Point3i { x: inf.x + (e - 1), y: inf.y, z: inf.z },
                NonOrientedAxis::Y => Point3i { x: inf.x, y: inf.y + (e - 1), z: inf.z },
                NonOrientedAxis::Z => Point3i { x: inf.x, y: inf.y, z: inf.z + (e - 1) },
            }
        } else {
            inf
        };
        iter_3d_rect_inf_dims(inf, dims)
    }

    /// The index of the block at `coords` in the chunk's own data (X varying first, then Y,
    /// then Z), if the chunk contains it.
    pub open spec fn internal_index_spec(self, coords: Point3i) -> Option<int> {
        let inf = self.inf_spec();
        let e = self.cd.edge as int;
        if in_rect(inf, self.sup_spec(), coords) {
            Some((coords.z - inf.z) * e * e + (coords.y - inf.y) * e + (coords.x - inf.x))
        } else {
            None
        }
    }

    pub fn internal_index(self, coords: Point3i) -> (r: Option<usize>)
        requires
            self.fits(),
            0 <= self.cd.edge,
            self.cd.edge * self.cd.edge * self.cd.edge <= i32::MAX,
        ensures
            r matches Some(i) ==> self.internal_index_spec(coords) == Some(i as int),
            r is None ==> self.internal_index_spec(coords) is None,
    {
        proof {
            self.lemma_wf();
        }
        if self.contains(coords) {
            let inf = self.block_coords_inf();
            let e = self.cd.edge;
            let x = coords.x - inf.x;
            let y = coords.y - inf.y;
            let z = coords.z - inf.z;
            assert(0 <= z * (e * e) + y * e + x < e * e * e && e * e <= e * e * e && z * (e * e) == z
                * e * e) by (nonlinear_arith)
                requires
                    0 <= x < e,
                    0 <= y < e,
                    0 <= z < e,
            {
                assert(y * e + x < e * e) by (nonlinear_arith)
                    requires
                        0 <= x < e,
                        0 <= y < e,
                ;
                assert(z * e * e <= (e - 1) * e * e) by (nonlinear_arith)
                    requires
                        0 <= z < e,
                ;
            }
            Some((z * (e * e) + y * e + x) as usize)
        } else {
            None
        }
    }
}

/// The block at the internal index of a block of the chunk is that block, in the list of the
/// blocks of the chunk: so each block of the chunk has its own index, below the number of
/// blocks in a chunk.
pub proof fn lemma_internal_index_is_position_in_iteration(span: ChunkCoordsSpan, coords: Point3i)
    requires
        span.fits(),
        0 <= span.cd.edge,
        span.contains_spec(coords),
    ensures
        span.internal_index_spec(coords) matches Some(i) && 0 <= i < span.cd.edge * span.cd.edge
            * span.cd.edge && rect_seq(span.inf_spec(), span.sup_spec())[i] == coords,
{
    span.lemma_wf();
    let inf = span.inf_spec();
    let sup = span.sup_spec();
    let e = span.cd.edge as int;
    lemma_rect_seq_is_the_rect(inf, sup);
    assert(in_rect(inf, sup, coords));
    let i = rect_index(inf, sup, coords.x as int, coords.y as int, coords.z as int);
    let zz = coords.z - inf.z;
    let yy = coords.y - inf.y;
    let xx = coords.x - inf.x;
    assert(i == (zz * e + yy) * e + xx);
    assert((zz * e + yy) * e + xx == zz * e * e + yy * e + xx) by (nonlinear_arith);
    assert(rect_volume(inf, sup) == e * e * e);
}

/// The index of the block at `rect_seq(inf, sup)[i]` in a chunk's blocks is `i`.
proof fn lemma_internal_index_of_position(span: ChunkCoordsSpan, i: int)
    requires
        span.fits(),
        0 < span.cd.edge,
        0 <= i < span.cd.edge * span.cd.edge * span.cd.edge,
    ensures
        span.contains_spec(rect_seq(span.inf_spec(), span.sup_spec())[i]),
        span.internal_index_spec(rect_seq(span.inf_spec(), span.sup_spec())[i]) == Some(i),
{
    span.lemma_wf();
    let inf = span.inf_spec();
    let sup = span.sup_spec();
    let e = span.cd.edge as int;
    lemma_rect_seq_is_the_rect(inf, sup);
    assert(rect_volume(inf, sup) == e * e * e);
    let q = rect_seq(inf, sup)[i];
    assert(span.contains_spec(q));
    vstd::arithmetic::div_mod::lemma_fundamental_div_mod(i, e);
    vstd::arithmetic::div_mod::lemma_fundamental_div_mod(i / e, e);
    vstd::arithmetic::div_mod::lemma_div_denominator(i, e, e);
    let x = i % e;
    let y = (i / e) % e;
    let z = i / (e * e);
    assert(q == rect_point(inf, sup, i));
    assert(sup.x - inf.x == e && sup.y - inf.y == e && sup.z - inf.z == e);
    assert(0 <= x < e && 0 <= y < e) by (nonlinear_arith)
        requires
            0 < e,
            x == i % e,
            y == (i / e) % e,
    ;
    assert(0 <= z < e) by (nonlinear_arith)
        requires
            0 < e,
            0 <= i < e * e * e,
            z == i / (e * e),
    ;
    assert(q.x - inf.x == x && q.y - inf.y == y && q.z - inf.z == z);
    assert(z * e * e + y * e + x == i) by (nonlinear_arith)
        requires
            i == e * (i / e) + x,
            i / e == e * ((i / e) / e) + y,
            (i / e) / e == z,
    ;
}

/// Whether some block of the chunk has the internal index `i`.
pub open spec fn internal_index_reached(span: ChunkCoordsSpan, i: int) -> bool {
    exists|p: Point3i| span.contains_spec(p) && #[trigger] span.internal_index_spec(p) == Some(i)
}

/// The internal index is a bijection from the blocks of the chunk to the indices from 0 to the
/// number of blocks of the chunk (excluded): the blocks of the chunk, and only them, get an
/// index, that index is below the number of blocks, two blocks never get the same index, and
/// every index below the number of blocks is the index of a block of the chunk.
pub proof fn law_internal_index_is_a_bijection(span: ChunkCoordsSpan)
    requires
        span.fits(),
        0 < span.cd.edge,
    ensures
        forall|p: Point3i| (#[trigger] span.internal_index_spec(p)) is Some <==> span.contains_spec(p),
        forall|p: Point3i|
            #[trigger] span.contains_spec(p) ==> 0 <= span.internal_index_spec(p).unwrap()
                < span.cd.edge * span.cd.edge * span.cd.edge,
        forall|p: Point3i, q: Point3i|
            span.contains_spec(p) && span.contains_spec(q) && #[trigger] span.internal_index_spec(p)
                == #[trigger] span.internal_index_spec(q) ==> p == q,
        forall|i: int|
            0 <= i < span.cd.edge * span.cd.edge * span.cd.edge ==> #[trigger] internal_index_reached(
                span,
                i,
            ),
{
    assert forall|p: Point3i| #[trigger] span.contains_spec(p) implies 0
        <= span.internal_index_spec(p).unwrap() < span.cd.edge * span.cd.edge * span.cd.edge by {
        lemma_internal_index_is_position_in_iteration(span, p);
    }
    assert forall|p: Point3i, q: Point3i|
        span.contains_spec(p) && span.contains_spec(q) && #[trigger] span.internal_index_spec(p)
            == #[trigger] span.internal_index_spec(q) implies p == q by {
        lemma_internal_index_is_position_in_iteration(span, p);
        lemma_internal_index_is_position_in_iteration(span, q);
    }
    assert forall|i: int| 0 <= i < span.cd.edge * span.cd.edge * span.cd.edge implies #[trigger] internal_index_reached(span, i) by {
        lemma_internal_index_of_position(span, i);
        let p = rect_seq(span.inf_spec(), span.sup_spec())[i];
        assert(span.contains_spec(p) && span.internal_index_spec(p) == Some(i));
    }
}

/// The coordinate, along the axis of `face`, of the blocks of the chunk that touch the chunk's
/// face towards `face`: the chunk's largest one for a positivewards face, its smallest one for
/// a negativewards face.
pub open spec fn face_layer_coord(span: ChunkCoordsSpan, face: OrientedAxis) -> int {
    let a = face.axis.spec_index();
    if face.orientation == AxisOrientation::Positivewards {
        span.sup_spec().coord(a) - 1
    } else {
        span.inf_spec().coord(a)
    }
}

/// A block lies in the rectangle of the face layer exactly when the chunk contains it and its
/// coordinate along the face's axis is that of the face layer.
proof fn lemma_face_rect(span: ChunkCoordsSpan, face: OrientedAxis, p: Point3i)
    requires
        span.fits(),
        1 <= span.cd.edge,
    ensures
        rect_wf(span.face_inf(face), span.face_inf(face).moved(span.face_dims(face.axis))),
        in_rect(span.face_inf(face), span.face_inf(face).moved(span.face_dims(face.axis)), p)
            <==> (span.contains_spec(p) && p.coord(face.axis.spec_index()) == face_layer_coord(span, face)),
{
    span.lemma_wf();
}

/// The blocks listed for the face of a chunk towards `face` (by
/// `iter_block_coords_on_chunk_face`) are exactly the blocks of the chunk that touch that face:
/// each listed block is in the chunk, with the largest coordinate of the chunk along the face's
/// axis if the face is positivewards, the smallest one if it is negativewards; and every such
/// block of the chunk is listed.
pub proof fn law_face_blocks_touch_the_face(span: ChunkCoordsSpan, face: OrientedAxis)
    requires
        span.fits(),
        1 <= span.cd.edge,
    ensures
        forall|i: int|
            #![trigger rect_seq(span.face_inf(face), span.face_inf(face).moved(span.face_dims(face.axis)))[i]]
            0 <= i < rect_seq(span.face_inf(face), span.face_inf(face).moved(span.face_dims(face.axis))).len()
                ==> {
                let b = rect_seq(span.face_inf(face), span.face_inf(face).moved(span.face_dims(face.axis)))[i];
                span.contains_spec(b) && b.coord(face.axis.spec_index()) == face_layer_coord(span, face)
            },
        forall|p: Point3i|
            span.contains_spec(p) && #[trigger] p.coord(face.axis.spec_index()) == face_layer_coord(span, face)
                ==> rect_seq(span.face_inf(face), span.face_inf(face).moved(span.face_dims(face.axis))).contains(p),
{
    let fi = span.face_inf(face);
    let fs = fi.moved(span.face_dims(face.axis));
    lemma_face_rect(span, face, fi);
    lemma_rect_seq_is_the_rect(fi, fs);
    let blocks = rect_seq(fi, fs);
    assert forall|i: int| 0 <= i < blocks.len() implies span.contains_spec(#[trigger] blocks[i])
        && blocks[i].coord(face.axis.spec_index()) == face_layer_coord(span, face) by {
        lemma_face_rect(span, face, blocks[i]);
    }
    assert forall|p: Point3i|
        span.contains_spec(p) && #[trigger] p.coord(face.axis.spec_index()) == face_layer_coord(span, face)
            implies blocks.contains(p) by {
        lemma_face_rect(span, face, p);
        let i = rect_index(fi, fs, p.x as int, p.y as int, p.z as int);
        assert(in_rect(fi, fs, p));
        assert(blocks[i] == p);
    }
}

impl ChunkCoordsSpan {
    /// Whether the chunk contains the block at `coords`.
    pub open spec fn contains_spec(self, coords: Point3i) -> bool {
        in_rect(self.inf_spec(), self.sup_spec(), coords)
    }
}

/// A rectangular area of the voxel grid, from `inf` (included) to `sup_excluded` (excluded).
#[derive(Debug, Clone, Copy, PartialEq, Eq, Structural)]
pub struct CubicCoordsSpan {
    pub inf: Point3i,
    pub sup_excluded: Point3i,
}

/// Whether two spans overlap: on no axis does one of them end before the other begins.
pub open spec fn spans_overlap(a: CubicCoordsSpan, b: CubicCoordsSpan) -> bool {
    &&& !(b.sup_excluded.x <= a.inf.x || a.sup_excluded.x <= b.inf.x)
    &&& !(b.sup_excluded.y <= a.inf.y || a.sup_excluded.y <= b.inf.y)
    &&& !(b.sup_excluded.z <= a.inf.z || a.sup_excluded.z <= b.inf.z)
}

pub open spec fn max(a: int, b: int) -> int {
    if a < b {
        b
    } else {
        a
    }
}

pub open spec fn min(a: int, b: int) -> int {
    if a < b {
        a
    } else {
        b
    }
}

impl CubicCoordsSpan {
    /// Whether the span is well formed (possibly empty).
    pub open spec fn wf(self) -> bool {
        rect_wf(self.inf, self.sup_excluded)
    }

    pub open spec fn contains_spec(self, coords: Point3i) -> bool {
        in_rect(self.inf, self.sup_excluded, coords)
    }

    pub fn with_inf_sup_but_sup_is_excluded(inf: Point3i, sup_excluded: Point3i) -> (r:
        CubicCoordsSpan)
        requires
            rect_wf(inf, sup_excluded),
        ensures
            r == (CubicCoordsSpan { inf, sup_excluded }),
    {
        CubicCoordsSpan { inf, sup_excluded }
    }

    pub fn with_inf_sup_but_sup_is_included(inf: Point3i, sup_included: Point3i) -> (r:
        CubicCoordsSpan)
        requires
            sup_included.x < i32::MAX && sup_included.y < i32::MAX && sup_included.z < i32::MAX,
            rect_wf(inf, pt(sup_included.x + 1, sup_included.y + 1, sup_included.z + 1)),
        ensures
            r == (CubicCoordsSpan {
                inf,
                sup_excluded: pt(sup_included.x + 1, sup_included.y + 1, sup_included.z + 1),
            }),
    {
        let sup_excluded = sup_included.add(Vector3i { x: 1, y: 1, z: 1 });
        CubicCoordsSpan::with_inf_sup_but_sup_is_excluded(inf, sup_excluded)
    }

    pub fn _with_inf_and_dims(inf: Point3i, dims: Vector3i) -> (r: CubicCoordsSpan)
        requires
            0 <= dims.x && 0 <= dims.y && 0 <= dims.z,
            in_i32(inf.x + dims.x) && in_i32(inf.y + dims.y) && in_i32(inf.z + dims.z),
        ensures
            r == (CubicCoordsSpan { inf, sup_excluded: inf.moved(dims) }),
    {
        let sup_excluded = inf.add(dims);
        CubicCoordsSpan::with_inf_sup_but_sup_is_excluded(inf, sup_excluded)
    }

    pub fn _with_inf_and_edge(inf: Point3i, edge: i32) -> (r: CubicCoordsSpan)
        requires
            0 <= edge,
            in_i32(inf.x + edge) && in_i32(inf.y + edge) && in_i32(inf.z + edge),
        ensures
            r == (CubicCoordsSpan { inf, sup_excluded: pt(inf.x + edge, inf.y + edge, inf.z + edge) }),
    {
        CubicCoordsSpan::_with_inf_and_dims(inf, Vector3i { x: edge, y: edge, z: edge })
    }

    /// A radius of 0 gives an empty area (at the center) and a radius of 1 gives just the
    /// center.
    pub fn with_center_and_radius(center: Point3i, radius: i32) -> (r: CubicCoordsSpan)
        requires
            cube_fits(center, radius as int),
        ensures
            ({
                let inf = cube_inf(center, radius as int);
                let e = cube_edge(radius as int);
                r == (CubicCoordsSpan { inf, sup_excluded: pt(inf.x + e, inf.y + e, inf.z + e) })
            }),
    {
        if radius == 0 {
            CubicCoordsSpan { inf: center, sup_excluded: center }
        } else {
            CubicCoordsSpan::_with_inf_and_edge(
                Point3i {
                    x: center.x - (radius - 1),
                    y: center.y - (radius - 1),
                    z: center.z - (radius - 1),
                },
                radius * 2 - 1,
            )
        }
    }

    pub fn from_chunk_span(chunk_span: ChunkCoordsSpan) -> (r: CubicCoordsSpan)
        requires
            chunk_span.fits(),
            0 <= chunk_span.cd.edge,
        ensures
            r == (CubicCoordsSpan { inf: chunk_span.inf_spec(), sup_excluded: chunk_span.sup_spec() }),
    {
        proof {
            chunk_span.lemma_wf();
        }
        CubicCoordsSpan::with_inf_sup_but_sup_is_excluded(
            chunk_span.block_coords_inf(),
            chunk_span.block_coords_sup_excluded(),
        )
    }

    pub fn sup_included(&self) -> (r: Point3i)
        requires
            self.sup_excluded.x > i32::MIN && self.sup_excluded.y > i32::MIN && self.sup_excluded.z
                > i32::MIN,
        ensures
            r == pt(self.sup_excluded.x - 1, self.sup_excluded.y - 1, self.sup_excluded.z - 1),
    {
        self.sup_excluded.sub(Vector3i { x: 1, y: 1, z: 1 })
    }

    /// Widens the span by `margin_to_add` blocks on each side.
    pub fn add_margins(&mut self, margin_to_add: i32)
        requires
            in_i32(old(self).inf.x - margin_to_add) && in_i32(old(self).inf.y - margin_to_add)
                && in_i32(old(self).inf.z - margin_to_add),
            in_i32(old(self).sup_excluded.x + margin_to_add) && in_i32(old(self).sup_excluded.y
                + margin_to_add) && in_i32(old(self).sup_excluded.z + margin_to_add),
        ensures
            final(self).inf == pt(
                old(self).inf.x - margin_to_add,
                old(self).inf.y - margin_to_add,
                old(self).inf.z - margin_to_add,
            ),
            final(self).sup_excluded == pt(
                old(self).sup_excluded.x + margin_to_add,
                old(self).sup_excluded.y + margin_to_add,
                old(self).sup_excluded.z + margin_to_add,
            ),
    {
        let m = Vector3i { x: margin_to_add, y: margin_to_add, z: margin_to_add };
        self.inf = self.inf.sub(m);
        self.sup_excluded = self.sup_excluded.add(m);
    }

    pub fn overlaps(&self, other: &CubicCoordsSpan) -> (r: bool)
        ensures
            r == spans_overlap(*self, *other),
    {
        let no_overlap_x = other.sup_excluded.x <= self.inf.x || self.sup_excluded.x <= other.inf.x;
        let no_overlap_y = other.sup_excluded.y <= self.inf.y || self.sup_excluded.y <= other.inf.y;
        let no_overlap_z = other.sup_excluded.z <= self.inf.z || self.sup_excluded.z <= other.inf.z;
        let no_overlap = no_overlap_x || no_overlap_y || no_overlap_z;
        !no_overlap
    }

    pub fn contains(&self, coords: Point3i) -> (r: bool)
        ensures
            r == self.contains_spec(coords),
    {
        (self.inf.x <= coords.x && coords.x < self.sup_excluded.x) && (self.inf.y <= coords.y
            && coords.y < self.sup_excluded.y) && (self.inf.z <= coords.z && coords.z
            < self.sup_excluded.z)
    }

    /// Lists the blocks of the span, X varying first, then Y, then Z.
    pub fn iter(self) -> (r: Vec<Point3i>)
        requires
            self.wf(),
        ensures
            r@ == rect_seq(self.inf, self.sup_excluded),
    {
        iter_3d_rect_inf_sup_excluded(self.inf, self.sup_excluded)
    }

    /// The span of the blocks that both spans contain, if they overlap.
    pub fn intersection(&self, other: &CubicCoordsSpan) -> (r: Option<CubicCoordsSpan>)
        requires
            self.wf(),
            other.wf(),
        ensures
            r is Some <==> spans_overlap(*self, *other),
            r matches Some(s) ==> s == (CubicCoordsSpan {
                inf: pt(
                    max(self.inf.x as int, other.inf.x as int),
                    max(self.inf.y as int, other.inf.y as int),
                    max(self.inf.z as int, other.inf.z as int),
                ),
                sup_excluded: pt(
                    min(self.sup_excluded.x as int, other.sup_excluded.x as int),
                    min(self.sup_excluded.y as int, other.sup_excluded.y as int),
                    min(self.sup_excluded.z as int, other.sup_excluded.z as int),
                ),
            }),
            r matches Some(s) ==> s.wf() && forall|p: Point3i|
                s.contains_spec(p) <==> self.contains_spec(p) && other.contains_spec(p),
    {
        if self.overlaps(other) {
            let inf = Point3i {
                x: if self.inf.x < other.inf.x { other.inf.x } else { self.inf.x },
                y: if self.inf.y < other.inf.y { other.inf.y } else { self.inf.y },
                z: if self.inf.z < other.inf.z { other.inf.z } else { self.inf.z },
            };
            let sup = Point3i {
                x: if self.sup_excluded.x < other.sup_excluded.x { self.sup_excluded.x } else { other.sup_excluded.x },
                y: if self.sup_excluded.y < other.sup_excluded.y { self.sup_excluded.y } else { other.sup_excluded.y },
                z: if self.sup_excluded.z < other.sup_excluded.z { self.sup_excluded.z } else { other.sup_excluded.z },
            };
            Some(CubicCoordsSpan::with_inf_sup_but_sup_is_excluded(inf, sup))
        } else {
            None
        }
    }

    /// The layer of blocks of the span on its side towards `oriented_axis`.
    pub fn side(self, oriented_axis: OrientedAxis) -> (r: CubicCoordsSpan)
        requires
            oriented_axis.orientation == AxisOrientation::Positivewards ==> self.sup_excluded.coord(
                oriented_axis.axis.spec_index(),
            ) > i32::MIN,
            oriented_axis.orientation == AxisOrientation::Negativewards ==> self.inf.coord(
                oriented_axis.axis.spec_index(),
            ) < i32::MAX,
        ensures
            ({
                let a = oriented_axis.axis.spec_index();
                if oriented_axis.orientation == AxisOrientation::Positivewards {
                    r.sup_excluded == self.sup_excluded && r.inf == self.inf.with_coord(
                        a,
                        self.sup_excluded.coord(a) - 1,
                    )
                } else {
                    r.inf == self.inf && r.sup_excluded == self.sup_excluded.with_coord(
                        a,
                        self.inf.coord(a) + 1,
                    )
                }
            }),
    {
        let mut s = self;
        if oriented_axis.orientation == AxisOrientation::Positivewards {
            match oriented_axis.axis {
                NonOrientedAxis::X => s.inf.x = s.sup_excluded.x - 1,
                NonOrientedAxis::Y => s.inf.y = s.sup_excluded.y - 1,
                NonOrientedAxis::Z => s.inf.z = s.sup_excluded.z - 1,
            }
        } else {
            match oriented_axis.axis {
                NonOrientedAxis::X => s.sup_excluded.x = s.inf.x + 1,
                NonOrientedAxis::Y => s.sup_excluded.y = s.inf.y + 1,
                NonOrientedAxis::Z => s.sup_excluded.z = s.inf.z + 1,
            }
        }
        s
    }
}

/// Two non-empty spans overlap exactly when some block lies in both.
pub proof fn lemma_overlap_iff_common_block(a: CubicCoordsSpan, b: CubicCoordsSpan)
    requires
        a.inf.x < a.sup_excluded.x && a.inf.y < a.sup_excluded.y && a.inf.z < a.sup_excluded.z,
        b.inf.x < b.sup_excluded.x && b.inf.y < b.sup_excluded.y && b.inf.z < b.sup_excluded.z,
    ensures
        spans_overlap(a, b) <==> exists|p: Point3i| a.contains_spec(p) && b.contains_spec(p),
{
    if spans_overlap(a, b) {
        let w = pt(
            max(a.inf.x as int, b.inf.x as int),
            max(a.inf.y as int, b.inf.y as int),
            max(a.inf.z as int, b.inf.z as int),
        );
        assert(a.contains_spec(w) && b.contains_spec(w));
    }
}

/// The chunk of the coordinates that `ChunkDimensions::world_coords_to_containing_chunk_coords`
/// gives contains the block (when the corners of that chunk can be computed in `i32`).
pub proof fn law_containing_chunk_contains_the_block(cd: ChunkDimensions, coords: Point3i)
    requires
        0 < cd.edge,
        (ChunkCoordsSpan {
            cd,
            chunk_coords: pt(
                coords.x as int / cd.edge as int,
                coords.y as int / cd.edge as int,
                coords.z as int / cd.edge as int,
            ),
        }).fits(),
    ensures
        (ChunkCoordsSpan {
            cd,
            chunk_coords: pt(
                coords.x as int / cd.edge as int,
                coords.y as int / cd.edge as int,
                coords.z as int / cd.edge as int,
            ),
        }).contains_spec(coords),
{
    let e = cd.edge as int;
    let span = ChunkCoordsSpan {
        cd,
        chunk_coords: pt(coords.x as int / e, coords.y as int / e, coords.z as int / e),
    };
    assert forall|v: int| #![trigger v / e] (v / e) * e <= v < (v / e + 1) * e by {
        assert((v / e) * e <= v < (v / e + 1) * e) by (nonlinear_arith)
            requires
                0 < e,
        ;
    }
    assert(i32::MIN <= coords.x as int / e <= i32::MAX && i32::MIN <= coords.y as int / e
        <= i32::MAX && i32::MIN <= coords.z as int / e <= i32::MAX) by (nonlinear_arith)
        requires
            0 < e,
    {
        assert(forall|v: int| i32::MIN <= v <= i32::MAX ==> i32::MIN <= #[trigger] (v / e) <= i32::MAX)
            by (nonlinear_arith)
            requires
                0 < e,
        {
        }
    }
}

/// The cube of a center and a radius is the set of the blocks that are less than `radius`
/// blocks away from the center along each axis (a radius of 0 gives no block).
pub proof fn law_cube_of_center_and_radius(center: Point3i, radius: int, p: Point3i)
    requires
        cube_fits(center, radius),
    ensures
        ({
            let inf = cube_inf(center, radius);
            let e = cube_edge(radius);
            in_rect(inf, pt(inf.x + e, inf.y + e, inf.z + e), p) <==> (center.x - radius < p.x
                < center.x + radius && center.y - radius < p.y < center.y + radius && center.z
                - radius < p.z < center.z + radius)
        }),
{
}

} // verus!
