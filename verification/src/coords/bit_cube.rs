//! A 3x3x3 cube of boolean values packed in the bits of an integer.

use vstd::prelude::*;
use crate::coords::{NonOrientedAxis, Point3i};

verus! {

/// Whether the bit of the given index is set in `data`.
pub open spec fn bit_of(data: u32, index: u32) -> bool {
    (data >> index) & 1u32 == 1u32
}

proof fn lemma_bits_of_zero()
    ensures
        forall|j: u32| j < 32 ==> !#[trigger] bit_of(0u32, j),
{
    assert(forall|j: u32| j < 32 ==> (0u32 >> j) & 1u32 != 1u32) by (bit_vector);
}

proof fn lemma_bit_after_set(data: u32, index: u32, v: u32, j: u32)
    by (bit_vector)
    requires
        index < 32,
        j < 32,
        v == 0 || v == 1,
    ensures
        ((((data & !(1u32 << index)) | (v << index)) >> j) & 1u32 == 1u32) == if j == index {
            v == 1
        } else {
            (data >> j) & 1u32 == 1u32
        },
{
}

proof fn lemma_bits_after_set(data: u32, index: u32, v: u32)
    requires
        index < 32,
        v == 0 || v == 1,
    ensures
        forall|j: u32|
            j < 32 ==> #[trigger] bit_of((data & !(1u32 << index)) | (v << index), j) == if j
                == index {
                v == 1
            } else {
                bit_of(data, j)
            },
{
    assert forall|j: u32| j < 32 implies #[trigger] bit_of(
        (data & !(1u32 << index)) | (v << index),
        j,
    ) == if j == index {
        v == 1
    } else {
        bit_of(data, j)
    } by {
        lemma_bit_after_set(data, index, v, j);
    }
}

/// An array of 27 boolean values stored in the bits of a `u32` (the value of index `i` is the
/// bit of weight `2^i`).
#[derive(Debug, Clone, Copy)]
pub struct BitArray27 {
    data: u32,
}

impl BitArray27 {
    /// The value at the given index.
    pub closed spec fn at(self, index: int) -> bool {
        bit_of(self.data, index as u32)
    }

    pub fn new_zero() -> (r: BitArray27)
        ensures
            forall|i: int| 0 <= i < 32 ==> !#[trigger] r.at(i),
    {
        proof {
            lemma_bits_of_zero();
        }
        let r = BitArray27 { data: 0 };
        assert forall|i: int| 0 <= i < 32 implies !#[trigger] r.at(i) by {
            assert(!bit_of(0u32, i as u32));
        }
        r
    }

    pub fn get(self, index: usize) -> (r: bool)
        requires
            index < 32,
        ensures
            r == self.at(index as int),
    {
        let i = index as u32;
        let d = self.data;
        assert(((d >> i) & 1u32 != 0u32) == ((d >> i) & 1u32 == 1u32)) by (bit_vector);
        (self.data >> i) & 1 != 0
    }

    pub fn set(&mut self, index: usize, value: bool)
        requires
            index < 32,
        ensures
            forall|i: int|
                0 <= i < 32 ==> #[trigger] final(self).at(i) == if i == index {
                    value
                } else {
                    old(self).at(i)
                },
    {
        let i = index as u32;
        let v: u32 = if value {
            1
        } else {
            0
        };
        proof {
            lemma_bits_after_set(self.data, i, v);
        }
        let old_data = self.data;
        self.data = (self.data & !(1u32 << i)) | (v << i);
        assert forall|j: int| 0 <= j < 32 implies #[trigger] self.at(j) == if j == index {
            value
        } else {
            bit_of(old_data, j as u32)
        } by {
            assert(bit_of((old_data & !(1u32 << i)) | (v << i), j as u32) == if j as u32 == i {
                v == 1
            } else {
                bit_of(old_data, j as u32)
            });
        }
    }
}

/// Whether the point is a cell of a `BitCube3`: its coordinates are all in `-1..=1`.
pub open spec fn in_cube(p: Point3i) -> bool {
    -1 <= p.x <= 1 && -1 <= p.y <= 1 && -1 <= p.z <= 1
}

/// The index of the cell at `p` in the bits of a `BitCube3`.
pub open spec fn cell_index(p: Point3i) -> int {
    (p.x + 1) + (p.y + 1) * 3 + (p.z + 1) * 9
}

/// The coordinates of a cell of a `BitCube3`, each in `-1..=1`.
#[derive(Debug, Clone, Copy)]
pub struct BitCube3Coords {
    x: i32,
    y: i32,
    z: i32,
}

impl BitCube3Coords {
    #[verifier::type_invariant]
    spec fn inv(self) -> bool {
        in_cube(self.point())
    }

    /// The coordinates, as a point.
    pub closed spec fn point(self) -> Point3i {
        Point3i { x: self.x, y: self.y, z: self.z }
    }

    pub fn from_point(coords: Point3i) -> (r: BitCube3Coords)
        requires
            in_cube(coords),
        ensures
            r.point() == coords,
    {
        BitCube3Coords { x: coords.x, y: coords.y, z: coords.z }
    }

    pub fn index(self) -> (r: usize)
        ensures
            in_cube(self.point()),
            r == cell_index(self.point()),
            r < 27,
    {
        proof {
            use_type_invariant(self);
        }
        ((self.x + 1) + (self.y + 1) * 3 + (self.z + 1) * 3 * 3) as usize
    }

    pub fn set(&mut self, axis: NonOrientedAxis, value: i32)
        requires
            -1 <= value <= 1,
        ensures
            final(self).point() == old(self).point().with_coord(axis.spec_index(), value as int),
    {
        proof {
            use_type_invariant(&*self);
        }
        match axis {
            NonOrientedAxis::X => self.x = value,
            NonOrientedAxis::Y => self.y = value,
            NonOrientedAxis::Z => self.z = value,
        }
    }
}

/// A 3x3x3 cube of boolean values. The cell of coordinates (0, 0, 0) is the center of the cube,
/// that spans from (-1, -1, -1) to (1, 1, 1).
#[derive(Debug, Clone, Copy)]
pub struct BitCube3 {
    data: BitArray27,
}

impl BitCube3 {
    /// The value of the cell at `p`.
    pub closed spec fn at(self, p: Point3i) -> bool {
        self.data.at(cell_index(p))
    }

    pub fn new_zero() -> (r: BitCube3)
        ensures
            forall|p: Point3i| in_cube(p) ==> !#[trigger] r.at(p),
    {
        BitCube3 { data: BitArray27::new_zero() }
    }

    pub fn get(self, coords: BitCube3Coords) -> (r: bool)
        ensures
            r == self.at(coords.point()),
    {
        self.data.get(coords.index())
    }

    pub fn set(&mut self, coords: BitCube3Coords, value: bool)
        ensures
            final(self).at(coords.point()) == value,
            forall|p: Point3i|
                in_cube(p) && p != coords.point() ==> #[trigger] final(self).at(p) == old(self).at(p),
    {
        let i = coords.index();
        self.data.set(i, value);
    }
}

} // verus!
