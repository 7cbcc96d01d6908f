use vstd::prelude::*;

use crate::term::cell::{black, Cell, WaferColor, CELL_HEIGHT, CELL_WIDTH, EMPTY_CHARACTER};
use crate::term::grid::Grid;

verus! {

/// An axis-aligned pixel rectangle, origin at the top left of the surface.
#[derive(Copy, Clone, Debug, PartialEq, Eq, Structural)]
pub struct PixelRect {
    pub x: i32,
    pub y: i32,
    pub width: u32,
    pub height: u32,
}

/// One operation on the drawing surface.
#[derive(Copy, Clone, Debug, PartialEq, Eq, Structural)]
pub enum DrawCommand {
    /// Clear the whole surface to `color`.
    Clear { color: WaferColor },
    /// Fill `rect` with `color`.
    FillRect { rect: PixelRect, color: WaferColor },
    /// Rasterize `character` in `color` and blit it, scaled to fit, into `rect`.
    Glyph { rect: PixelRect, character: char, color: WaferColor },
}

/// The rectangle of the cell at `line`, `column`: cells tile the surface without overlap.
pub open spec fn cell_rect(line: int, column: int) -> PixelRect {
    PixelRect {
        x: (column * CELL_WIDTH) as i32,
        y: (line * CELL_HEIGHT) as i32,
        width: CELL_WIDTH as u32,
        height: CELL_HEIGHT as u32,
    }
}

/// What painting one cell draws: its background always, then its glyph unless it is blank.
pub open spec fn cell_commands(line: int, column: int, cell: Cell) -> Seq<DrawCommand> {
    let rect = cell_rect(line, column);
    let fill = DrawCommand::FillRect { rect, color: cell.background };
    if cell.character == EMPTY_CHARACTER {
        seq![fill]
    } else {
        seq![fill, DrawCommand::Glyph { rect, character: cell.character, color: cell.foreground }]
    }
}

/// What painting the cells of `row`, as line `line`, draws, left to right.
pub open spec fn row_commands(line: int, row: Seq<Cell>) -> Seq<DrawCommand>
    decreases row.len(),
{
    if row.len() == 0 {
        seq![]
    } else {
        row_commands(line, row.drop_last()) + cell_commands(line, row.len() - 1, row.last())
    }
}

/// What painting `rows` draws, top to bottom.
pub open spec fn rows_commands(rows: Seq<Seq<Cell>>) -> Seq<DrawCommand>
    decreases rows.len(),
{
    if rows.len() == 0 {
        seq![]
    } else {
        rows_commands(rows.drop_last()) + row_commands(rows.len() - 1, rows.last())
    }
}

/// A whole frame: the surface cleared to black, then every cell in scan order.
pub open spec fn frame_commands(rows: Seq<Seq<Cell>>) -> Seq<DrawCommand> {
    seq![DrawCommand::Clear { color: black() }] + rows_commands(rows)
}

/// Where the commands of the cell at `line`, `column` begin in the frame.
pub open spec fn cell_start(rows: Seq<Seq<Cell>>, line: int, column: int) -> int {
    1 + rows_commands(rows.take(line)).len() as int + row_commands(line, rows[line].take(column)).len() as int
}

pub(crate) proof fn lemma_row_step(line: int, row: Seq<Cell>, n: int)
    requires
        0 <= n < row.len(),
    ensures
        row_commands(line, row.take(n + 1)) == row_commands(line, row.take(n)) + cell_commands(
            line,
            n,
            row[n],
        ),
{
    assert(row.take(n + 1).drop_last() =~= row.take(n));
}

pub(crate) proof fn lemma_rows_step(rows: Seq<Seq<Cell>>, n: int)
    requires
        0 <= n < rows.len(),
    ensures
        rows_commands(rows.take(n + 1)) == rows_commands(rows.take(n)) + row_commands(n, rows[n]),
{
    assert(rows.take(n + 1).drop_last() =~= rows.take(n));
}

proof fn lemma_row_prefix(line: int, row: Seq<Cell>, k: int, n: int)
    requires
        0 <= k <= n <= row.len(),
    ensures
        row_commands(line, row.take(k)).len() <= row_commands(line, row.take(n)).len(),
        row_commands(line, row.take(k)).is_prefix_of(row_commands(line, row.take(n))),
    decreases n - k,
{
    if k < n {
        lemma_row_prefix(line, row, k, n - 1);
        lemma_row_step(line, row, n - 1);
    }
}

proof fn lemma_rows_prefix(rows: Seq<Seq<Cell>>, k: int, n: int)
    requires
        0 <= k <= n <= rows.len(),
    ensures
        rows_commands(rows.take(k)).len() <= rows_commands(rows.take(n)).len(),
        rows_commands(rows.take(k)).is_prefix_of(rows_commands(rows.take(n))),
    decreases n - k,
{
    if k < n {
        lemma_rows_prefix(rows, k, n - 1);
        lemma_rows_step(rows, n - 1);
    }
}

/// Each cell's commands stand together in the frame, starting at `cell_start`.
pub proof fn lemma_cell_commands_in_frame(g: Grid, line: int, column: int)
    requires
        g.wf(),
        0 <= line < g.dimensions.lines,
        0 <= column < g.dimensions.columns,
    ensures
        ({
            let rows = g.rows();
            let start = cell_start(rows, line, column);
            let cmds = cell_commands(line, column, rows[line][column]);
            &&& start + cmds.len() <= frame_commands(rows).len()
            &&& frame_commands(rows).subrange(start, start + cmds.len()) == cmds
        }),
{
    let rows = g.rows();
    let row = rows[line];
    assert(row.len() == g.dimensions.columns);
    let head = seq![DrawCommand::Clear { color: black() }];
    let before = rows_commands(rows.take(line));
    let cmds = cell_commands(line, column, row[column]);
    lemma_row_step(line, row, column);
    lemma_row_prefix(line, row, column + 1, row.len() as int);
    assert(row.take(row.len() as int) =~= row);
    lemma_rows_step(rows, line);
    lemma_rows_prefix(rows, line + 1, rows.len() as int);
    assert(rows.take(rows.len() as int) =~= rows);
    let upto = head + before + row_commands(line, row.take(column + 1));
    assert(upto.is_prefix_of(frame_commands(rows))) by {
        let whole = frame_commands(rows);
        let mid = head + rows_commands(rows.take(line + 1));
        assert(mid.is_prefix_of(whole));
        assert(upto.is_prefix_of(mid)) by {
            assert forall|i: int| 0 <= i < upto.len() implies upto[i] == mid[i] by {
                if i >= head.len() + before.len() {
                    let j = i - head.len() - before.len();
                    assert(row_commands(line, row.take(column + 1))[j] == row_commands(
                        line,
                        row,
                    )[j]);
                }
            }
        }
    }
    let start = cell_start(rows, line, column);
    assert(frame_commands(rows).subrange(start, start + cmds.len()) =~= cmds) by {
        assert forall|i: int| 0 <= i < cmds.len() implies frame_commands(rows)[start + i]
            == cmds[i] by {
            assert(upto[start + i] == frame_commands(rows)[start + i]);
        }
    }
}

/// Cells are painted in scan order: line by line from the top, left to right within a
/// line. All commands of an earlier cell come before any command of a later one.
pub proof fn lemma_scan_order(g: Grid, l1: int, c1: int, l2: int, c2: int)
    requires
        g.wf(),
        0 <= l1 < g.dimensions.lines,
        0 <= c1 < g.dimensions.columns,
        0 <= l2 < g.dimensions.lines,
        0 <= c2 < g.dimensions.columns,
        l1 < l2 || (l1 == l2 && c1 < c2),
    ensures
        cell_start(g.rows(), l1, c1) + cell_commands(l1, c1, g.rows()[l1][c1]).len()
            <= cell_start(g.rows(), l2, c2),
{
    let rows = g.rows();
    let r1 = rows[l1];
    assert(r1.len() == g.dimensions.columns);
    lemma_row_step(l1, r1, c1);
    if l1 == l2 {
        lemma_row_prefix(l1, r1, c1 + 1, c2);
    } else {
        lemma_row_prefix(l1, r1, c1 + 1, r1.len() as int);
        assert(r1.take(r1.len() as int) =~= r1);
        lemma_rows_step(rows, l1);
        lemma_rows_prefix(rows, l1 + 1, l2);
    }
}

/// A blank cell is painted by one background fill and no glyph.
pub proof fn lemma_blank_cell_fill_only(line: int, column: int, cell: Cell)
    requires
        cell.is_empty(),
    ensures
        cell_commands(line, column, cell) == seq![
            DrawCommand::FillRect { rect: cell_rect(line, column), color: cell.background },
        ],
        forall|i: int|
            0 <= i < cell_commands(line, column, cell).len() ==> !(#[trigger] cell_commands(
                line,
                column,
                cell,
            )[i] is Glyph),
{
}

/// A grid without lines is painted by the clear alone.
pub proof fn lemma_no_lines_clear_only(g: Grid)
    requires
        g.wf(),
        g.dimensions.lines == 0,
    ensures
        frame_commands(g.rows()) == seq![DrawCommand::Clear { color: black() }],
{
    assert(g.rows().len() == 0);
    assert(frame_commands(g.rows()) =~= seq![DrawCommand::Clear { color: black() }]);
}

} // verus!
