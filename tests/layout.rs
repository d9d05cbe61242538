use std::collections::HashSet;
use tilegrid::{
    check_dimensions, generate, placement_transform, CellCoordinate, CellIdentity, CellSize,
    Dimension, GridError, GridExtent, GridStorage, PlacementTransform, ReferencePoint,
};

fn extent(columns: u32, rows: u32) -> GridExtent {
    GridExtent { columns, rows }
}

fn size(width: u32, height: u32) -> CellSize {
    CellSize { width, height }
}

const ORIGIN: ReferencePoint = ReferencePoint { x: 0, y: 0 };

fn generated(columns: u32, rows: u32) -> GridStorage {
    generate(extent(columns, rows), size(1, 1), ORIGIN, 0).unwrap().0
}

#[test]
fn centres_sixty_four_square_grid_on_origin() {
    let (storage, t) = generate(extent(64, 64), size(32, 32), ORIGIN, 0).unwrap();
    assert_eq!(storage.len(), 4096);
    // total size 2048 x 2048, translation (-1024, -1024, 0)
    assert_eq!(t, PlacementTransform { half_x: -2048, half_y: -2048, z: 0 });
}

#[test]
fn rejects_zero_columns() {
    let r = generate(extent(0, 5), size(1, 1), ORIGIN, 0);
    assert_eq!(r.err(), Some(GridError::InvalidDimension(Dimension::Columns)));
}

#[test]
fn rejects_zero_cell_width() {
    let r = generate(extent(3, 3), size(0, 1), ORIGIN, 0);
    assert_eq!(r.err(), Some(GridError::InvalidDimension(Dimension::CellWidth)));
}

#[test]
fn rejects_zero_rows_and_zero_cell_height() {
    let r = generate(extent(2, 0), size(1, 1), ORIGIN, 0);
    assert_eq!(r.err(), Some(GridError::InvalidDimension(Dimension::Rows)));
    let r = generate(extent(2, 2), size(1, 0), ORIGIN, 0);
    assert_eq!(r.err(), Some(GridError::InvalidDimension(Dimension::CellHeight)));
}

#[test]
fn reports_first_bad_argument() {
    let r = check_dimensions(extent(0, 0), size(0, 0));
    assert_eq!(r, Err(GridError::InvalidDimension(Dimension::Columns)));
    let r = check_dimensions(extent(4, 1), size(0, 0));
    assert_eq!(r, Err(GridError::InvalidDimension(Dimension::CellWidth)));
    assert_eq!(check_dimensions(extent(4, 1), size(2, 3)), Ok(()));
}

#[test]
fn largest_extent_fits_only_with_wide_addresses() {
    let r = check_dimensions(extent(u32::MAX, u32::MAX), size(1, 1));
    if usize::BITS >= 64 {
        assert_eq!(r, Ok(()));
    } else {
        assert_eq!(r, Err(GridError::TooLarge));
    }
}

#[test]
fn single_cell_grid_of_scaled_cell() {
    let (storage, t) = generate(extent(1, 1), size(10, 20), ORIGIN, 7).unwrap();
    assert_eq!(storage.len(), 1);
    assert_eq!(storage.coordinates(), vec![CellCoordinate { column: 0, row: 0 }]);
    // translation (-5, -10, depth)
    assert_eq!(t, PlacementTransform { half_x: -10, half_y: -20, z: 7 });
}

#[test]
fn odd_span_centre_is_exact_in_half_units() {
    let t = placement_transform(extent(3, 1), size(5, 4), ReferencePoint { x: 10, y: -4 }, -2);
    assert_eq!(t, PlacementTransform { half_x: 5, half_y: -12, z: -2 });
}

#[test]
fn extreme_inputs_do_not_overflow() {
    let t = placement_transform(
        extent(u32::MAX, u32::MAX),
        size(u32::MAX, u32::MAX),
        ReferencePoint { x: i64::MIN, y: i64::MAX },
        0,
    );
    let span = (u32::MAX as i128) * (u32::MAX as i128);
    assert_eq!(t.half_x, 2 * (i64::MIN as i128) - span);
    assert_eq!(t.half_y, 2 * (i64::MAX as i128) - span);
}

#[test]
fn every_coordinate_has_exactly_one_entry() {
    let storage = generated(4, 3);
    assert_eq!(storage.columns(), 4);
    assert_eq!(storage.rows(), 3);
    assert_eq!(storage.len(), 12);
    let coordinates = storage.coordinates();
    assert_eq!(coordinates.len(), 12);
    let distinct: HashSet<CellCoordinate> = coordinates.iter().copied().collect();
    assert_eq!(distinct.len(), 12);
    for column in 0..4 {
        for row in 0..3 {
            let c = CellCoordinate { column, row };
            assert!(distinct.contains(&c));
            assert!(storage.get(c).is_some());
        }
    }
    assert_eq!(storage.get(CellCoordinate { column: 4, row: 0 }), None);
    assert_eq!(storage.get(CellCoordinate { column: 0, row: 3 }), None);
}

#[test]
fn identities_are_pairwise_distinct() {
    let storage = generated(5, 7);
    let mut seen: HashSet<CellIdentity> = HashSet::new();
    for c in storage.coordinates() {
        assert!(seen.insert(storage.get(c).unwrap()));
    }
    assert_eq!(seen.len(), 35);
}

#[test]
fn transform_is_identical_across_calls() {
    let a = generate(extent(9, 4), size(3, 7), ReferencePoint { x: 5, y: 6 }, 2).unwrap().1;
    let b = generate(extent(9, 4), size(3, 7), ReferencePoint { x: 5, y: 6 }, 2).unwrap().1;
    assert_eq!(a, b);
    assert_eq!(a, PlacementTransform { half_x: -17, half_y: -16, z: 2 });
}

#[test]
fn regeneration_covers_the_same_coordinates() {
    let first: HashSet<CellCoordinate> = generated(6, 2).coordinates().into_iter().collect();
    let second: HashSet<CellCoordinate> = generated(6, 2).coordinates().into_iter().collect();
    assert_eq!(first, second);
}

#[test]
fn coordinates_walk_row_major() {
    let storage = generated(3, 2);
    assert_eq!(storage.coordinate_at(0), Some(CellCoordinate { column: 0, row: 0 }));
    assert_eq!(storage.coordinate_at(2), Some(CellCoordinate { column: 2, row: 0 }));
    assert_eq!(storage.coordinate_at(4), Some(CellCoordinate { column: 1, row: 1 }));
    assert_eq!(storage.coordinate_at(6), None);
}

#[test]
fn identity_can_be_reassigned_inside_extent_only() {
    let mut storage = generated(2, 2);
    let c = CellCoordinate { column: 1, row: 1 };
    let replacement = CellIdentity { slot: 99 };
    assert!(storage.set(c, replacement));
    assert_eq!(storage.get(c), Some(replacement));
    assert_eq!(storage.len(), 4);
    assert!(!storage.set(CellCoordinate { column: 2, row: 0 }, replacement));
    assert_eq!(storage.columns(), 2);
    assert_eq!(storage.rows(), 2);
}

#[test]
fn fresh_identities_follow_storage_positions() {
    let storage = generated(3, 2);
    assert_eq!(storage.get(CellCoordinate { column: 2, row: 1 }), Some(CellIdentity { slot: 5 }));
    assert_eq!(storage.get(CellCoordinate { column: 0, row: 1 }), Some(CellIdentity { slot: 3 }));
}
