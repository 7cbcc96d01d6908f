use vstd::prelude::*;

use crate::term::cell::{default_cell, Cell, CELL_HEIGHT, CELL_WIDTH};

verus! {

/// The number of columns and lines that fit in a window.
#[derive(Copy, Clone, Debug, PartialEq, Eq, Structural)]
pub struct GridDimensions {
    pub columns: u16,
    pub lines: u16,
}

/// Why a window size could not be turned into grid dimensions.
#[derive(Copy, Clone, Debug, PartialEq, Eq, Structural)]
pub enum GridError {
    /// A pixel width or height does not fit the 16-bit counts of the grid.
    DimensionOverflow { width: u32, height: u32 },
}

/// Whether a window's pixel size fits the 16-bit integers that grid sizing works on.
pub open spec fn fits_window(width: u32, height: u32) -> bool {
    width <= u16::MAX && height <= u16::MAX
}

/// The grid that a window of `width` by `height` pixels holds: whole cells only.
pub open spec fn window_dimensions(width: u32, height: u32) -> GridDimensions {
    GridDimensions {
        columns: (width / (CELL_WIDTH as u32)) as u16,
        lines: (height / (CELL_HEIGHT as u32)) as u16,
    }
}

impl GridDimensions {
    /// Columns and lines of whole cells in a window of the given pixel size.
    pub fn from_window_size(width: u32, height: u32) -> (d: Self)
        requires
            fits_window(width, height),
        ensures
            d == window_dimensions(width, height),
            d.columns as int == width as int / 10,
            d.lines as int == height as int / 20,
    {
        let width = width as u16;
        let height = height as u16;
        Self { columns: width / CELL_WIDTH, lines: height / CELL_HEIGHT }
    }

    /// As `from_window_size`, but a window too large for the grid's counts is an error.
    pub fn try_from_window_size(width: u32, height: u32) -> (r: Result<Self, GridError>)
        ensures
            fits_window(width, height) ==> r == Ok::<Self, GridError>(
                window_dimensions(width, height),
            ),
            !fits_window(width, height) ==> r == Err::<Self, GridError>(
                GridError::DimensionOverflow { width, height },
            ),
    {
        if width <= u16::MAX as u32 && height <= u16::MAX as u32 {
            Ok(Self::from_window_size(width, height))
        } else {
            Err(GridError::DimensionOverflow { width, height })
        }
    }
}

/// A row of `columns` blank cells.
pub open spec fn blank_row(columns: nat) -> Seq<Cell> {
    Seq::new(columns, |j: int| default_cell())
}

/// The content of a freshly made grid of the given dimensions.
pub open spec fn blank_rows(d: GridDimensions) -> Seq<Seq<Cell>> {
    Seq::new(d.lines as nat, |i: int| blank_row(d.columns as nat))
}

/// The cells of the terminal, line by line; each line holds its cells column by column.
#[derive(Debug, PartialEq, Eq)]
pub struct Grid {
    pub dimensions: GridDimensions,
    pub content: Vec<Vec<Cell>>,
}

impl Grid {
    /// The cells as a sequence of lines.
    pub open spec fn rows(&self) -> Seq<Seq<Cell>> {
        self.content@.map_values(|row: Vec<Cell>| row@)
    }

    /// There are `lines` rows and each has `columns` cells.
    pub open spec fn wf(&self) -> bool {
        &&& self.content@.len() == self.dimensions.lines
        &&& forall|i: int|
            0 <= i < self.content@.len() ==> #[trigger] self.content@[i]@.len()
                == self.dimensions.columns
    }

    /// A grid of dimensions `d` whose every cell is blank.
    pub open spec fn is_blank(&self, d: GridDimensions) -> bool {
        &&& self.wf()
        &&& self.dimensions == d
        &&& self.rows() == blank_rows(d)
    }

    /// A grid of the given dimensions, every cell blank.
    pub fn new(dimensions: &GridDimensions) -> (g: Self)
        ensures
            g.is_blank(*dimensions),
    {
        let mut content: Vec<Vec<Cell>> = Vec::new();
        let mut i: u16 = 0;
        while i < dimensions.lines
            invariant
                i <= dimensions.lines,
                content@.len() == i,
                forall|k: int| 0 <= k < i ==> #[trigger] content@[k]@ == blank_row(
                    dimensions.columns as nat,
                ),
            decreases dimensions.lines - i,
        {
            let mut row: Vec<Cell> = Vec::new();
            let mut j: u16 = 0;
            while j < dimensions.columns
                invariant
                    j <= dimensions.columns,
                    row@ == blank_row(j as nat),
                decreases dimensions.columns - j,
            {
                row.push(Cell::new());
                j = j + 1;
                assert(row@ =~= blank_row(j as nat));
            }
            content.push(row);
            i = i + 1;
        }
        let g = Grid { dimensions: *dimensions, content };
        assert(g.rows() =~= blank_rows(*dimensions));
        g
    }
}

/// Making a grid twice from the same dimensions gives the same grid, cell for cell.
pub proof fn lemma_new_is_deterministic(d: GridDimensions, g1: Grid, g2: Grid)
    requires
        g1.is_blank(d),
        g2.is_blank(d),
    ensures
        g1.dimensions == g2.dimensions,
        g1.rows() == g2.rows(),
{
}

} // verus!
