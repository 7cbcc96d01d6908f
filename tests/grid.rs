use wafer::term::cell::{Cell, WaferColor, CELL_HEIGHT, CELL_WIDTH};
use wafer::term::grid::{Grid, GridDimensions, GridError};

#[test]
fn from_window_size() {
    let dimensions = GridDimensions::from_window_size(100, 200);
    assert_eq!(dimensions.columns, 10);
    assert_eq!(dimensions.lines, 10);
}

#[test]
fn from_window_size_drops_partial_cells() {
    let d = GridDimensions::from_window_size(109, 219);
    assert_eq!(d, GridDimensions { columns: 10, lines: 10 });
    let d = GridDimensions::from_window_size(9, 19);
    assert_eq!(d, GridDimensions { columns: 0, lines: 0 });
}

#[test]
fn from_window_size_zero_area() {
    let d = GridDimensions::from_window_size(0, 0);
    assert_eq!(d, GridDimensions { columns: 0, lines: 0 });
}

#[test]
fn from_window_size_largest() {
    let d = GridDimensions::from_window_size(65535, 65535);
    assert_eq!(d, GridDimensions { columns: 6553, lines: 3276 });
}

#[test]
fn try_from_window_size_fits() {
    assert_eq!(
        GridDimensions::try_from_window_size(640, 480),
        Ok(GridDimensions { columns: 64, lines: 24 })
    );
}

#[test]
fn try_from_window_size_overflow() {
    assert_eq!(
        GridDimensions::try_from_window_size(65536, 20),
        Err(GridError::DimensionOverflow { width: 65536, height: 20 })
    );
    assert_eq!(
        GridDimensions::try_from_window_size(10, 70000),
        Err(GridError::DimensionOverflow { width: 10, height: 70000 })
    );
}

#[test]
fn cell_constants() {
    assert_eq!(CELL_WIDTH, 10);
    assert_eq!(CELL_HEIGHT, 20);
}

#[test]
fn color_new_keeps_channels() {
    let c = WaferColor::new(1, 2, 3);
    assert_eq!((c.r, c.g, c.b), (1, 2, 3));
}

#[test]
fn default_cell_is_blank_white_on_black() {
    let c = Cell::new();
    assert_eq!(c.character, '\0');
    assert_eq!(c.foreground, WaferColor { r: 255, g: 255, b: 255 });
    assert_eq!(c.background, WaferColor { r: 0, g: 0, b: 0 });
}

#[test]
fn grid_new_has_blank_cells() {
    let d = GridDimensions { columns: 3, lines: 2 };
    let g = Grid::new(&d);
    assert_eq!(g.dimensions, d);
    assert_eq!(g.content.len(), 2);
    for row in &g.content {
        assert_eq!(row.len(), 3);
        for cell in row {
            assert_eq!(*cell, Cell::new());
        }
    }
}

#[test]
fn grid_new_empty() {
    let g = Grid::new(&GridDimensions { columns: 5, lines: 0 });
    assert!(g.content.is_empty());
    let g = Grid::new(&GridDimensions { columns: 0, lines: 4 });
    assert_eq!(g.content.len(), 4);
    assert!(g.content.iter().all(|row| row.is_empty()));
}

#[test]
fn grid_new_twice_is_equal() {
    let d = GridDimensions { columns: 7, lines: 4 };
    assert_eq!(Grid::new(&d), Grid::new(&d));
}
