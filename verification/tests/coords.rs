use qwy3::coords::bit_cube::{BitArray27, BitCube3, BitCube3Coords};
use qwy3::coords::span::{
    iter_3d_cube_center_radius, iter_3d_cube_inf_edge, iter_3d_rect_inf_dims,
    iter_3d_rect_inf_sup_excluded, iter_3d_rect_inf_sup_included, ChunkCoordsSpan,
    ChunkDimensions, CubicCoordsSpan,
};
use qwy3::coords::{
    AxisOrientation, NonOrientedAxis, OrientedAxis, OrientedFaceCoords, Point3i, Vector3i,
};

fn p(x: i32, y: i32, z: i32) -> Point3i {
    Point3i::new(x, y, z)
}

#[test]
fn bit_array() {
    let mut bit_array = BitArray27::new_zero();
    bit_array.set(3, true);
    assert!(!bit_array.get(2));
    assert!(bit_array.get(3));
}

#[test]
fn bit_array_set_then_clear() {
    let mut bit_array = BitArray27::new_zero();
    bit_array.set(26, true);
    bit_array.set(0, true);
    bit_array.set(26, false);
    assert!(bit_array.get(0));
    assert!(!bit_array.get(26));
    for i in 1..27 {
        assert!(!bit_array.get(i));
    }
}

#[test]
fn bit_cube_get_after_set() {
    let mut cube = BitCube3::new_zero();
    let center = BitCube3Coords::from_point(p(0, 0, 0));
    let corner = BitCube3Coords::from_point(p(-1, 1, -1));
    cube.set(corner, true);
    assert!(cube.get(corner));
    assert!(!cube.get(center));
    cube.set(center, true);
    cube.set(corner, false);
    assert!(cube.get(center));
    assert!(!cube.get(corner));
}

#[test]
fn bit_cube_coords_index_and_set() {
    let mut coords = BitCube3Coords::from_point(p(-1, -1, -1));
    assert_eq!(coords.index(), 0);
    coords.set(NonOrientedAxis::Z, 1);
    assert_eq!(coords.index(), 18);
    coords.set(NonOrientedAxis::X, 1);
    assert_eq!(coords.index(), 20);
    assert_eq!(BitCube3Coords::from_point(p(1, 1, 1)).index(), 26);
    assert_eq!(BitCube3Coords::from_point(p(0, 0, 0)).index(), 13);
}

#[test]
fn axes_and_orientations() {
    assert_eq!(
        NonOrientedAxis::iter_over_the_three_possible_axes(),
        vec![NonOrientedAxis::X, NonOrientedAxis::Y, NonOrientedAxis::Z]
    );
    assert_eq!(NonOrientedAxis::Y.index(), 1);
    assert_eq!(NonOrientedAxis::Z.as_char(), 'z');
    assert_eq!(NonOrientedAxis::Y.the_other_two_axes(), [NonOrientedAxis::X, NonOrientedAxis::Z]);
    assert_eq!(AxisOrientation::Negativewards.sign(), -1);
    assert_eq!(AxisOrientation::Positivewards.as_char(), '+');
    assert_eq!(AxisOrientation::from_sign(1), Some(AxisOrientation::Positivewards));
    assert_eq!(AxisOrientation::from_sign(-1), Some(AxisOrientation::Negativewards));
    assert_eq!(AxisOrientation::from_sign(0), None);
    assert_eq!(
        AxisOrientation::iter_over_the_two_possible_orientations(),
        vec![AxisOrientation::Positivewards, AxisOrientation::Negativewards]
    );
}

#[test]
fn six_directions_and_deltas() {
    let directions = OrientedAxis::all_the_six_possible_directions();
    assert_eq!(directions.len(), 6);
    assert_eq!(
        directions[3],
        OrientedAxis { axis: NonOrientedAxis::Y, orientation: AxisOrientation::Negativewards }
    );
    for direction in directions {
        assert_eq!(OrientedAxis::from_delta(direction.delta()), Some(direction));
    }
    let up = OrientedAxis { axis: NonOrientedAxis::Z, orientation: AxisOrientation::Positivewards };
    assert_eq!(up.delta(), Vector3i::new(0, 0, 1));
    assert_eq!(OrientedAxis::from_delta(Vector3i::new(1, 1, 0)), None);
    assert_eq!(OrientedAxis::from_delta(Vector3i::new(0, 0, 0)), None);
    assert_eq!(OrientedAxis::from_delta(Vector3i::new(0, -2, 0)), None);
}

#[test]
fn exterior_of_a_face() {
    let face = OrientedFaceCoords {
        interior_coords: p(4, 5, 6),
        direction_to_exterior: OrientedAxis {
            axis: NonOrientedAxis::X,
            orientation: AxisOrientation::Negativewards,
        },
    };
    assert_eq!(face.exterior_coords(), p(3, 5, 6));
}

#[test]
fn rect_iteration_order() {
    let points = iter_3d_rect_inf_sup_excluded(p(0, 0, 0), p(2, 2, 2));
    assert_eq!(
        points,
        vec![
            p(0, 0, 0),
            p(1, 0, 0),
            p(0, 1, 0),
            p(1, 1, 0),
            p(0, 0, 1),
            p(1, 0, 1),
            p(0, 1, 1),
            p(1, 1, 1)
        ]
    );
    assert!(iter_3d_rect_inf_sup_excluded(p(0, 0, 0), p(3, 0, 3)).is_empty());
    assert_eq!(iter_3d_rect_inf_sup_included(p(1, 1, 1), p(2, 3, 4)).len(), 2 * 3 * 4);
    assert_eq!(iter_3d_rect_inf_dims(p(-1, -1, -1), Vector3i::new(1, 2, 1)), vec![p(-1, -1, -1), p(-1, 0, -1)]);
    assert_eq!(iter_3d_cube_inf_edge(p(5, 5, 5), 3).len(), 27);
}

#[test]
fn cube_of_center_and_radius() {
    assert!(iter_3d_cube_center_radius(p(7, 7, 7), 0).is_empty());
    assert_eq!(iter_3d_cube_center_radius(p(7, 7, 7), 1), vec![p(7, 7, 7)]);
    let cube = iter_3d_cube_center_radius(p(0, 0, 0), 2);
    assert_eq!(cube.len(), 27);
    assert_eq!(cube[0], p(-1, -1, -1));
    assert_eq!(cube[26], p(1, 1, 1));
    let span = CubicCoordsSpan::with_center_and_radius(p(0, 0, 0), 2);
    assert_eq!(span.inf, p(-1, -1, -1));
    assert_eq!(span.sup_excluded, p(2, 2, 2));
    let empty = CubicCoordsSpan::with_center_and_radius(p(3, 4, 5), 0);
    assert_eq!(empty.inf, p(3, 4, 5));
    assert_eq!(empty.sup_excluded, p(3, 4, 5));
}

#[test]
fn chunk_dimensions_and_containing_chunk() {
    let cd = ChunkDimensions::from(16);
    assert_eq!(cd.edge, 16);
    assert_eq!(cd.number_of_blocks_in_a_chunk(), 4096);
    assert_eq!(cd._dimensions(), Vector3i::new(16, 16, 16));
    assert_eq!(cd.world_coords_to_containing_chunk_coords(p(0, 15, 16)), p(0, 0, 1));
    assert_eq!(cd.world_coords_to_containing_chunk_coords(p(-1, -16, -17)), p(-1, -1, -2));
}

#[test]
fn chunk_span_corners_contains_and_index() {
    let span = ChunkCoordsSpan { cd: ChunkDimensions::from(4), chunk_coords: p(1, -1, 0) };
    assert_eq!(span.block_coords_inf(), p(4, -4, 0));
    assert_eq!(span.block_coords_sup_excluded(), p(8, 0, 4));
    assert!(span.contains(p(4, -4, 0)));
    assert!(span.contains(p(7, -1, 3)));
    assert!(!span.contains(p(8, -1, 3)));
    assert!(!span.contains(p(4, 0, 0)));
    assert_eq!(span.internal_index(p(4, -4, 0)), Some(0));
    assert_eq!(span.internal_index(p(5, -3, 2)), Some(2 * 16 + 4 + 1));
    assert_eq!(span.internal_index(p(3, -4, 0)), None);
    let blocks = span.iter_coords();
    assert_eq!(blocks.len(), 64);
    for (i, block) in blocks.iter().enumerate() {
        assert_eq!(span.internal_index(*block), Some(i));
    }
}

#[test]
fn blocks_on_a_chunk_face() {
    let span = ChunkCoordsSpan { cd: ChunkDimensions::from(3), chunk_coords: p(0, 0, 0) };
    let top = span.iter_block_coords_on_chunk_face(OrientedAxis {
        axis: NonOrientedAxis::Z,
        orientation: AxisOrientation::Positivewards,
    });
    assert_eq!(top.len(), 9);
    assert!(top.iter().all(|b| b.z == 2));
    let west = span.iter_block_coords_on_chunk_face(OrientedAxis {
        axis: NonOrientedAxis::X,
        orientation: AxisOrientation::Negativewards,
    });
    assert_eq!(west.len(), 9);
    assert!(west.iter().all(|b| b.x == 0 && span.contains(*b)));
}

#[test]
fn spans_overlap_and_intersect() {
    let a = CubicCoordsSpan::with_inf_sup_but_sup_is_excluded(p(0, 0, 0), p(4, 4, 4));
    let b = CubicCoordsSpan::with_inf_sup_but_sup_is_excluded(p(2, 3, -5), p(10, 10, 1));
    let c = CubicCoordsSpan::with_inf_sup_but_sup_is_excluded(p(4, 0, 0), p(5, 4, 4));
    assert!(a.overlaps(&b));
    assert!(!a.overlaps(&c));
    let i = a.intersection(&b).unwrap();
    assert_eq!(i.inf, p(2, 3, 0));
    assert_eq!(i.sup_excluded, p(4, 4, 1));
    assert!(a.intersection(&c).is_none());
    for block in a.iter() {
        assert_eq!(i.contains(block), b.contains(block));
    }
}

#[test]
fn span_sides_margins_and_constructors() {
    let mut span = CubicCoordsSpan::with_inf_sup_but_sup_is_included(p(0, 0, 0), p(3, 3, 3));
    assert_eq!(span.sup_excluded, p(4, 4, 4));
    assert_eq!(span.sup_included(), p(3, 3, 3));
    let east = span.side(OrientedAxis {
        axis: NonOrientedAxis::X,
        orientation: AxisOrientation::Positivewards,
    });
    assert_eq!(east.inf, p(3, 0, 0));
    assert_eq!(east.sup_excluded, p(4, 4, 4));
    let bottom = span.side(OrientedAxis {
        axis: NonOrientedAxis::Z,
        orientation: AxisOrientation::Negativewards,
    });
    assert_eq!(bottom.inf, p(0, 0, 0));
    assert_eq!(bottom.sup_excluded, p(4, 4, 1));
    span.add_margins(2);
    assert_eq!(span.inf, p(-2, -2, -2));
    assert_eq!(span.sup_excluded, p(6, 6, 6));
    let dims = CubicCoordsSpan::_with_inf_and_dims(p(1, 2, 3), Vector3i::new(1, 1, 2));
    assert_eq!(dims.sup_excluded, p(2, 3, 5));
    let cube = CubicCoordsSpan::_with_inf_and_edge(p(1, 2, 3), 2);
    assert_eq!(cube.sup_excluded, p(3, 4, 5));
    let chunk = ChunkCoordsSpan { cd: ChunkDimensions::from(8), chunk_coords: p(-1, 0, 2) };
    let from_chunk = CubicCoordsSpan::from_chunk_span(chunk);
    assert_eq!(from_chunk.inf, p(-8, 0, 16));
    assert_eq!(from_chunk.sup_excluded, p(0, 8, 24));
}

#[test]
fn non_empty_spans_overlap_when_they_share_a_block() {
    let a = CubicCoordsSpan::with_inf_sup_but_sup_is_excluded(p(0, 0, 0), p(2, 2, 2));
    let touching = CubicCoordsSpan::with_inf_sup_but_sup_is_excluded(p(2, 0, 0), p(4, 2, 2));
    let sharing = CubicCoordsSpan::with_inf_sup_but_sup_is_excluded(p(1, 1, 1), p(4, 4, 4));
    assert!(!a.overlaps(&touching));
    assert!(!a.iter().iter().any(|b| touching.contains(*b)));
    assert!(a.overlaps(&sharing));
    assert!(a.iter().iter().any(|b| sharing.contains(*b)));
}

#[test]
fn the_containing_chunk_contains_the_block() {
    for edge in [1, 3, 16, 32] {
        let cd = ChunkDimensions::from(edge);
        for block in [p(0, 0, 0), p(-1, 17, -33), p(100, -100, 5), p(edge - 1, -edge, edge)] {
            let chunk_coords = cd.world_coords_to_containing_chunk_coords(block);
            assert!(ChunkCoordsSpan { cd, chunk_coords }.contains(block));
        }
    }
}

#[test]
fn cube_of_center_and_radius_is_a_ball_of_the_max_distance() {
    let center = p(3, -2, 7);
    let span = CubicCoordsSpan::with_center_and_radius(center, 3);
    for block in iter_3d_rect_inf_sup_excluded(p(-3, -8, 1), p(9, 4, 13)) {
        let close = (block.x - center.x).abs() < 3
            && (block.y - center.y).abs() < 3
            && (block.z - center.z).abs() < 3;
        assert_eq!(span.contains(block), close);
    }
}
