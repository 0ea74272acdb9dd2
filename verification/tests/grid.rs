//! The turf grid's dimension handling and tile-id arithmetic.

use atmospherics::runtime::AtmosError;
use atmospherics::turf_grid::TurfGrid;

#[test]
fn it_works() {
    assert_eq!(2 + 2, 4);
}

#[test]
fn defaults_match_the_host_world() {
    let grid = TurfGrid::new();
    assert_eq!(grid.max_x(), 255);
    assert_eq!(grid.max_y(), 255);
    assert_eq!(grid.max_z(), 1);
    assert_eq!(grid.max_id(), 255 * 255);
}

#[test]
fn refresh_takes_over_host_dimensions() {
    let mut grid = TurfGrid::new();
    assert_eq!(grid.refresh_grid(100, 50, 3), Ok(()));
    assert_eq!(grid.max_x(), 100);
    assert_eq!(grid.max_y(), 50);
    assert_eq!(grid.max_z(), 3);
    assert_eq!(grid.max_id(), 15_000);
}

#[test]
fn refresh_rejects_unusable_dimensions() {
    let mut grid = TurfGrid::new();
    assert_eq!(grid.refresh_grid(-1, 50, 3), Err(AtmosError::InvalidNumericInput));
    assert_eq!(
        grid.refresh_grid(100_000, 100_000, 100_000),
        Err(AtmosError::InvalidNumericInput)
    );
    // A rejected refresh leaves the grid unchanged.
    assert_eq!(grid.max_x(), 255);
}

#[test]
fn to_id_flattens_coordinates() {
    let mut grid = TurfGrid::new();
    grid.refresh_grid(100, 50, 3).unwrap();
    assert_eq!(grid.to_id(1, 1, 1), Ok(0));
    assert_eq!(grid.to_id(100, 1, 1), Ok(99));
    assert_eq!(grid.to_id(1, 2, 1), Ok(100));
    assert_eq!(grid.to_id(3, 4, 2), Ok(2 + 3 * 100 + 1 * 100 * 50));
    assert_eq!(grid.to_id(100, 50, 3), Ok(14_999));
}

#[test]
fn to_id_rejects_out_of_range_tiles() {
    let grid = TurfGrid::new();
    assert_eq!(grid.to_id(0, 1, 1), Err(AtmosError::OutOfRangeIndex));
    assert_eq!(grid.to_id(256, 1, 1), Err(AtmosError::OutOfRangeIndex));
    assert_eq!(grid.to_id(1, 1, 2), Err(AtmosError::OutOfRangeIndex));
}

#[test]
fn turf_ref_carries_the_tile_id() {
    let grid = TurfGrid::new();
    let t = grid.turf_ref(2, 3, 1).unwrap();
    assert_eq!(t.id, 1 + 2 * 255);
    assert_eq!(
        grid.turf_ref(0, 0, 0).map(|t| t.id),
        Err(AtmosError::OutOfRangeIndex)
    );
}
