//! Coordinate systems for Qwy3.
//!
//! The up direction is Z+. The chunks are cubic and organized on a 3D grid, so that the world
//! is as infinite along the Z axis (in both directions) as it is horizontally.

use vstd::prelude::*;

pub mod bit_cube;
pub mod span;

verus! {

/// A point of the voxel grid.
#[derive(Debug, Clone, Copy, PartialEq, Eq, Structural)]
pub struct Point3i {
    pub x: i32,
    pub y: i32,
    pub z: i32,
}

/// A displacement on the voxel grid.
#[derive(Debug, Clone, Copy, PartialEq, Eq, Structural)]
pub struct Vector3i {
    pub x: i32,
    pub y: i32,
    pub z: i32,
}

/// Coordinates of a block in the world.
pub type BlockCoords = Point3i;

/// Coordinates of a chunk in the 3D grid of chunks (on the scale of whole chunks).
pub type ChunkCoords = Point3i;

pub open spec fn in_i32(v: int) -> bool {
    i32::MIN <= v <= i32::MAX
}

/// The point of the given integer coordinates (each taken modulo 2^32).
pub open spec fn pt(x: int, y: int, z: int) -> Point3i {
    Point3i { x: x as i32, y: y as i32, z: z as i32 }
}

impl Point3i {
    pub fn new(x: i32, y: i32, z: i32) -> (r: Point3i)
        ensures
            r == (Point3i { x, y, z }),
    {
        Point3i { x, y, z }
    }

    /// The coordinate along the axis of the given index (0 for X, 1 for Y, 2 for Z).
    pub open spec fn coord(self, axis: int) -> int {
        if axis == 0 {
            self.x as int
        } else if axis == 1 {
            self.y as int
        } else {
            self.z as int
        }
    }

    /// The point with its coordinate along the axis of the given index replaced.
    pub open spec fn with_coord(self, axis: int, v: int) -> Point3i {
        if axis == 0 {
            pt(v, self.y as int, self.z as int)
        } else if axis == 1 {
            pt(self.x as int, v, self.z as int)
        } else {
            pt(self.x as int, self.y as int, v)
        }
    }

    /// The point moved by the displacement (coordinates taken modulo 2^32).
    pub open spec fn moved(self, v: Vector3i) -> Point3i {
        Point3i { x: (self.x + v.x) as i32, y: (self.y + v.y) as i32, z: (self.z + v.z) as i32 }
    }

    /// The point moved by the displacement.
    pub fn add(self, v: Vector3i) -> (r: Point3i)
        requires
            in_i32(self.x + v.x),
            in_i32(self.y + v.y),
            in_i32(self.z + v.z),
        ensures
            r == self.moved(v),
    {
        Point3i { x: self.x + v.x, y: self.y + v.y, z: self.z + v.z }
    }

    /// The point moved back by the displacement.
    pub fn sub(self, v: Vector3i) -> (r: Point3i)
        requires
            in_i32(self.x - v.x),
            in_i32(self.y - v.y),
            in_i32(self.z - v.z),
        ensures
            r == (Point3i { x: (self.x - v.x) as i32, y: (self.y - v.y) as i32, z: (self.z - v.z) as i32 }),
    {
        Point3i { x: self.x - v.x, y: self.y - v.y, z: self.z - v.z }
    }
}

impl Vector3i {
    pub fn new(x: i32, y: i32, z: i32) -> (r: Vector3i)
        ensures
            r == (Vector3i { x, y, z }),
    {
        Vector3i { x, y, z }
    }
}

/// One of the two orientations along an axis. With `NonOrientedAxis::Z`, `Positivewards`
/// is upwards (increasing Z).
#[derive(Debug, Clone, Copy, PartialEq, Eq, Structural)]
pub enum AxisOrientation {
    Positivewards,
    Negativewards,
}

impl AxisOrientation {
    pub open spec fn spec_sign(self) -> int {
        match self {
            AxisOrientation::Positivewards => 1,
            AxisOrientation::Negativewards => -1,
        }
    }

    pub fn iter_over_the_two_possible_orientations() -> (r: Vec<AxisOrientation>)
        ensures
            r@ == seq![AxisOrientation::Positivewards, AxisOrientation::Negativewards],
    {
        vec![AxisOrientation::Positivewards, AxisOrientation::Negativewards]
    }

    pub fn sign(self) -> (r: i32)
        ensures
            r == self.spec_sign(),
    {
        match self {
            AxisOrientation::Positivewards => 1,
            AxisOrientation::Negativewards => -1,
        }
    }

    pub fn as_char(self) -> (r: char)
        ensures
            r == (match self {
                AxisOrientation::Positivewards => '+',
                AxisOrientation::Negativewards => '-',
            }),
    {
        match self {
            AxisOrientation::Positivewards => '+',
            AxisOrientation::Negativewards => '-',
        }
    }

    pub fn from_sign(sign: i32) -> (r: Option<AxisOrientation>)
        ensures
            r == (if sign == 1 {
                Some(AxisOrientation::Positivewards)
            } else if sign == -1 {
                Some(AxisOrientation::Negativewards)
            } else {
                None
            }),
    {
        match sign {
            1 => Some(AxisOrientation::Positivewards),
            -1 => Some(AxisOrientation::Negativewards),
            _ => None,
        }
    }
}

/// An axis, without its orientation. The vertical axis is Z.
#[derive(Debug, Clone, Copy, PartialEq, Eq, Structural)]
pub enum NonOrientedAxis {
    X,
    Y,
    Z,
}

impl NonOrientedAxis {
    pub open spec fn spec_index(self) -> int {
        match self {
            NonOrientedAxis::X => 0,
            NonOrientedAxis::Y => 1,
            NonOrientedAxis::Z => 2,
        }
    }

    pub fn iter_over_the_three_possible_axes() -> (r: Vec<NonOrientedAxis>)
        ensures
            r@ == seq![NonOrientedAxis::X, NonOrientedAxis::Y, NonOrientedAxis::Z],
    {
        vec![NonOrientedAxis::X, NonOrientedAxis::Y, NonOrientedAxis::Z]
    }

    pub fn index(self) -> (r: usize)
        ensures
            r == self.spec_index(),
    {
        match self {
            NonOrientedAxis::X => 0,
            NonOrientedAxis::Y => 1,
            NonOrientedAxis::Z => 2,
        }
    }

    pub fn as_char(self) -> (r: char)
        ensures
            r == (match self {
                NonOrientedAxis::X => 'x',
                NonOrientedAxis::Y => 'y',
                NonOrientedAxis::Z => 'z',
            }),
    {
        match self {
            NonOrientedAxis::X => 'x',
            NonOrientedAxis::Y => 'y',
            NonOrientedAxis::Z => 'z',
        }
    }

    /// The two other axes, in the order X, Y, Z.
    pub fn the_other_two_axes(self) -> (r: [NonOrientedAxis; 2])
        ensures
            r@ == (match self {
                NonOrientedAxis::X => seq![NonOrientedAxis::Y, NonOrientedAxis::Z],
                NonOrientedAxis::Y => seq![NonOrientedAxis::X, NonOrientedAxis::Z],
                NonOrientedAxis::Z => seq![NonOrientedAxis::X, NonOrientedAxis::Y],
            }),
    {
        match self {
            NonOrientedAxis::X => [NonOrientedAxis::Y, NonOrientedAxis::Z],
            NonOrientedAxis::Y => [NonOrientedAxis::X, NonOrientedAxis::Z],
            NonOrientedAxis::Z => [NonOrientedAxis::X, NonOrientedAxis::Y],
        }
    }
}

/// An axis with an orientation: one of the six directions. Upwards is Z+.
#[derive(Debug, Clone, Copy, PartialEq, Eq, Structural)]
pub struct OrientedAxis {
    pub axis: NonOrientedAxis,
    pub orientation: AxisOrientation,
}

/// The displacement of one block along the oriented axis.
pub open spec fn spec_delta(d: OrientedAxis) -> Vector3i {
    let s = d.orientation.spec_sign() as i32;
    match d.axis {
        NonOrientedAxis::X => Vector3i { x: s, y: 0, z: 0 },
        NonOrientedAxis::Y => Vector3i { x: 0, y: s, z: 0 },
        NonOrientedAxis::Z => Vector3i { x: 0, y: 0, z: s },
    }
}

pub open spec fn abs(v: int) -> int {
    if v < 0 {
        -v
    } else {
        v
    }
}

/// The six directions, the axes in the order X, Y, Z, and along each the positive orientation
/// first.
pub open spec fn six_directions() -> Seq<OrientedAxis> {
    seq![
        OrientedAxis { axis: NonOrientedAxis::X, orientation: AxisOrientation::Positivewards },
        OrientedAxis { axis: NonOrientedAxis::X, orientation: AxisOrientation::Negativewards },
        OrientedAxis { axis: NonOrientedAxis::Y, orientation: AxisOrientation::Positivewards },
        OrientedAxis { axis: NonOrientedAxis::Y, orientation: AxisOrientation::Negativewards },
        OrientedAxis { axis: NonOrientedAxis::Z, orientation: AxisOrientation::Positivewards },
        OrientedAxis { axis: NonOrientedAxis::Z, orientation: AxisOrientation::Negativewards },
    ]
}

impl OrientedAxis {
    /// The direction of a displacement of one block along one axis, if it is one.
    pub fn from_delta(delta: Vector3i) -> (r: Option<OrientedAxis>)
        requires
            delta.x != i32::MIN && delta.y != i32::MIN && delta.z != i32::MIN,
            abs(delta.x as int) + abs(delta.y as int) <= i32::MAX,
            abs(delta.x as int) + abs(delta.y as int) + abs(delta.z as int) <= i32::MAX,
        ensures
            match r {
                Some(d) => spec_delta(d) == delta,
                None => forall|d: OrientedAxis| spec_delta(d) != delta,
            },
    {
        let ax = if delta.x < 0 { -delta.x } else { delta.x };
        let ay = if delta.y < 0 { -delta.y } else { delta.y };
        let az = if delta.z < 0 { -delta.z } else { delta.z };
        if ax + ay + az != 1 {
            return None;
        }
        let sign = delta.x + delta.y + delta.z;
        let orientation = match AxisOrientation::from_sign(sign) {
            Some(orientation) => orientation,
            None => {
                return None;
            },
        };
        let axis = if delta.x != 0 {
            NonOrientedAxis::X
        } else if delta.y != 0 {
            NonOrientedAxis::Y
        } else {
            NonOrientedAxis::Z
        };
        Some(OrientedAxis { axis, orientation })
    }

    pub fn all_the_six_possible_directions() -> (r: Vec<OrientedAxis>)
        ensures
            r@ == six_directions(),
    {
        let mut r: Vec<OrientedAxis> = Vec::new();
        let axes = NonOrientedAxis::iter_over_the_three_possible_axes();
        let orientations = AxisOrientation::iter_over_the_two_possible_orientations();
        let mut i: usize = 0;
        while i < 3
            invariant
                axes@ == seq![NonOrientedAxis::X, NonOrientedAxis::Y, NonOrientedAxis::Z],
                orientations@ == seq![AxisOrientation::Positivewards, AxisOrientation::Negativewards],
                i <= 3,
                r@ == six_directions().take(2 * i as int),
            decreases 3 - i,
        {
            let mut j: usize = 0;
            while j < 2
                invariant
                    axes@ == seq![NonOrientedAxis::X, NonOrientedAxis::Y, NonOrientedAxis::Z],
                    orientations@ == seq![AxisOrientation::Positivewards, AxisOrientation::Negativewards],
                    i < 3,
                    j <= 2,
                    r@ == six_directions().take(2 * i + j),
                decreases 2 - j,
            {
                let d = OrientedAxis { axis: axes[i], orientation: orientations[j] };
                proof {
                    assert(six_directions()[2 * i + j] == d);
                    assert(six_directions().take(2 * i + j + 1) =~= six_directions().take(2 * i + j).push(d));
                }
                r.push(d);
                j = j + 1;
            }
            i = i + 1;
        }
        proof {
            assert(six_directions().take(6) =~= six_directions());
        }
        r
    }

    /// The displacement of one block in this direction.
    pub fn delta(self) -> (r: Vector3i)
        ensures
            r == spec_delta(self),
    {
        let s = self.orientation.sign();
        match self.axis {
            NonOrientedAxis::X => Vector3i { x: s, y: 0, z: 0 },
            NonOrientedAxis::Y => Vector3i { x: 0, y: s, z: 0 },
            NonOrientedAxis::Z => Vector3i { x: 0, y: 0, z: s },
        }
    }
}

/// Coordinates of an oriented face: the face of the block at `interior_coords` that faces
/// towards `direction_to_exterior`.
#[derive(Debug, Clone, Copy, PartialEq, Eq, Structural)]
pub struct OrientedFaceCoords {
    pub interior_coords: BlockCoords,
    pub direction_to_exterior: OrientedAxis,
}

impl OrientedFaceCoords {
    /// The block on the other side of the face.
    pub fn exterior_coords(&self) -> (r: BlockCoords)
        requires
            in_i32(self.interior_coords.x + spec_delta(self.direction_to_exterior).x),
            in_i32(self.interior_coords.y + spec_delta(self.direction_to_exterior).y),
            in_i32(self.interior_coords.z + spec_delta(self.direction_to_exterior).z),
        ensures
            r == self.interior_coords.moved(spec_delta(self.direction_to_exterior)),
    {
        self.interior_coords.add(self.direction_to_exterior.delta())
    }
}

/// Moving a block one step towards a direction changes its coordinate along the direction's
/// axis by one, upwards for a positivewards direction and downwards for a negativewards one,
/// and leaves its two other coordinates as they were.
pub proof fn law_delta_is_one_step_along_the_axis(d: OrientedAxis, p: Point3i)
    requires
        in_i32(p.x - 1) && in_i32(p.x + 1),
        in_i32(p.y - 1) && in_i32(p.y + 1),
        in_i32(p.z - 1) && in_i32(p.z + 1),
    ensures
        forall|k: int|
            0 <= k < 3 ==> #[trigger] p.moved(spec_delta(d)).coord(k) == p.coord(k) + if k
                == d.axis.spec_index() {
                if d.orientation == AxisOrientation::Positivewards {
                    1int
                } else {
                    -1int
                }
            } else {
                0int
            },
{
}

/// A direction is the only one of its displacement, so that `OrientedAxis::from_delta` gives back
/// the direction of which `OrientedAxis::delta` gave the displacement.
pub proof fn law_from_delta_undoes_delta(d: OrientedAxis, other: OrientedAxis)
    ensures
        spec_delta(other) == spec_delta(d) ==> other == d,
{
}

} // verus!
