use vstd::prelude::*;

use crate::paint::{
    frame_commands, lemma_row_step, lemma_rows_step, row_commands, rows_commands,
    DrawCommand, PixelRect,
};
use crate::term::cell::{black, Cell, WaferColor, CELL_HEIGHT, CELL_WIDTH, EMPTY_CHARACTER};
use crate::term::grid::{
    blank_rows, fits_window, window_dimensions, Grid, GridDimensions, GridError,
};

verus! {

/// An input event, as far as the renderer tells events apart.
#[derive(Copy, Clone, Debug, PartialEq, Eq, Structural)]
pub enum InputEvent {
    /// The window was asked to close.
    Quit,
    /// The escape key was pressed.
    EscapeKey,
    /// The window was resized; the drawable area is now `width` by `height` pixels.
    Resized { width: u32, height: u32 },
    /// Anything else; it is ignored.
    Other,
}

impl InputEvent {
    pub open spec fn is_quit(self) -> bool {
        self is Quit || self is EscapeKey
    }
}

/// What the renderer holds, as values: its quit flag and its grid.
pub struct RendererView {
    pub quit: bool,
    pub dimensions: GridDimensions,
    pub rows: Seq<Seq<Cell>>,
}

/// The state after one event, or the error it raises.
pub open spec fn apply_event(v: RendererView, e: InputEvent) -> Result<RendererView, GridError> {
    match e {
        InputEvent::Quit | InputEvent::EscapeKey => Ok(
            RendererView { quit: true, dimensions: v.dimensions, rows: v.rows },
        ),
        InputEvent::Resized { width, height } => if fits_window(width, height) {
            Ok(
                RendererView {
                    quit: v.quit,
                    dimensions: window_dimensions(width, height),
                    rows: blank_rows(window_dimensions(width, height)),
                },
            )
        } else {
            Err(GridError::DimensionOverflow { width, height })
        },
        InputEvent::Other => Ok(v),
    }
}

/// Draining every one of `events` in arrival order; an oversized resize fails the drain.
pub open spec fn intake(v: RendererView, events: Seq<InputEvent>) -> Result<
    RendererView,
    GridError,
>
    decreases events.len(),
{
    if events.len() == 0 {
        Ok(v)
    } else {
        match apply_event(v, events[0]) {
            Ok(w) => intake(w, events.drop_first()),
            Err(e) => Err(e),
        }
    }
}

/// The compositor: it owns the grid and decides, frame by frame, what to draw.
pub struct Renderer {
    pub quit: bool,
    pub grid: Grid,
}

impl View for Renderer {
    type V = RendererView;

    open spec fn view(&self) -> RendererView {
        RendererView { quit: self.quit, dimensions: self.grid.dimensions, rows: self.grid.rows() }
    }
}

impl Renderer {
    /// A renderer for a drawable area of `width` by `height` pixels, its grid blank.
    pub fn new(width: u32, height: u32) -> (r: Result<Self, GridError>)
        ensures
            fits_window(width, height) <==> (r is Ok),
            r matches Ok(s) ==> !s.quit && s.grid.is_blank(window_dimensions(width, height)),
            !fits_window(width, height) ==> r == Err::<Self, GridError>(
                GridError::DimensionOverflow { width, height },
            ),
    {
        match GridDimensions::try_from_window_size(width, height) {
            Ok(d) => Ok(Renderer { quit: false, grid: Grid::new(&d) }),
            Err(e) => Err(e),
        }
    }

    /// Drains all of `events` in arrival order: a quit or escape sets the quit flag, which
    /// the render loop reads before its next turn; each resize replaces the grid with a
    /// blank one of the new size.
    pub fn update(&mut self, events: &Vec<InputEvent>) -> (r: Result<(), GridError>)
        ensures
            (r is Ok) <==> (intake(old(self)@, events@) is Ok),
            (r is Ok) ==> final(self)@ == intake(old(self)@, events@)->Ok_0,
            r matches Err(e) ==> (intake(old(self)@, events@) == Err::<RendererView, GridError>(e)),
            old(self).grid.wf() ==> final(self).grid.wf(),
    {
        let ghost start = self@;
        let ghost was_wf = self.grid.wf();
        let mut i: usize = 0;
        assert(events@.skip(0) =~= events@);
        while i < events.len()
            invariant
                i <= events@.len(),
                start == old(self)@,
                was_wf == old(self).grid.wf(),
                intake(start, events@) == intake(self@, events@.skip(i as int)),
                was_wf ==> self.grid.wf(),
            decreases events@.len() - i,
        {
            let ghost rest = events@.skip(i as int);
            assert(rest[0] == events@[i as int]);
            assert(rest.drop_first() =~= events@.skip(i + 1));
            match events[i] {
                InputEvent::Quit | InputEvent::EscapeKey => {
                    self.quit = true;
                },
                InputEvent::Resized { width, height } => {
                    match GridDimensions::try_from_window_size(width, height) {
                        Ok(d) => {
                            self.grid = Grid::new(&d);
                        },
                        Err(e) => {
                            return Err(e);
                        },
                    }
                },
                InputEvent::Other => {},
            }
            i = i + 1;
        }
        assert(events@.skip(i as int) =~= Seq::<InputEvent>::empty());
        Ok(())
    }

    /// One turn of the render loop. Once quit was requested it does nothing and returns
    /// `None`; otherwise it drains `events` and returns the commands of the next frame.
    pub fn frame(&mut self, events: &Vec<InputEvent>) -> (r: Result<
        Option<Vec<DrawCommand>>,
        GridError,
    >)
        requires
            old(self).grid.wf(),
        ensures
            final(self).grid.wf(),
            old(self).quit ==> (r matches Ok(None)) && final(self)@ == old(self)@,
            !old(self).quit ==> ((r is Ok) <==> (intake(old(self)@, events@) is Ok)),
            !old(self).quit ==> (r matches Ok(c) ==> (c matches Some(cmds) && final(self)@
                == intake(old(self)@, events@)->Ok_0 && cmds@ == frame_commands(
                final(self).grid.rows(),
            ))),
            r matches Err(e) ==> (intake(old(self)@, events@) == Err::<RendererView, GridError>(e)),
    {
        if self.quit {
            return Ok(None);
        }
        match self.update(events) {
            Ok(()) => Ok(Some(self.run())),
            Err(e) => Err(e),
        }
    }

    /// The draw commands of one frame: clear to black, then each cell line by line, left
    /// to right, its background and, unless it is blank, its glyph.
    pub fn run(&self) -> (r: Vec<DrawCommand>)
        requires
            self.grid.wf(),
        ensures
            r@ == frame_commands(self.grid.rows()),
    {
        let ghost rows = self.grid.rows();
        let mut out: Vec<DrawCommand> = Vec::new();
        out.push(DrawCommand::Clear { color: WaferColor::new(0, 0, 0) });
        let ghost head = out@;
        assert(head == seq![DrawCommand::Clear { color: black() }]);
        let mut line: usize = 0;
        while line < self.grid.content.len()
            invariant
                self.grid.wf(),
                rows == self.grid.rows(),
                line <= rows.len(),
                head == seq![DrawCommand::Clear { color: black() }],
                out@ == head + rows_commands(rows.take(line as int)),
            decreases rows.len() - line,
        {
            let row = &self.grid.content[line];
            assert(row@ == rows[line as int]);
            assert(row@.len() == self.grid.dimensions.columns);
            let ghost done = out@;
            let mut column: usize = 0;
            while column < row.len()
                invariant
                    row@ == rows[line as int],
                    row@.len() <= u16::MAX,
                    line < rows.len() <= u16::MAX,
                    column <= row@.len(),
                    out@ == done + row_commands(line as int, row@.take(column as int)),
                decreases row@.len() - column,
            {
                let cell = row[column];
                let rect = PixelRect {
                    x: column as i32 * CELL_WIDTH as i32,
                    y: line as i32 * CELL_HEIGHT as i32,
                    width: CELL_WIDTH as u32,
                    height: CELL_HEIGHT as u32,
                };
                proof {
                    lemma_row_step(line as int, row@, column as int);
                }
                out.push(DrawCommand::FillRect { rect, color: cell.background });
                if cell.character != EMPTY_CHARACTER {
                    out.push(
                        DrawCommand::Glyph { rect, character: cell.character, color: cell.foreground },
                    );
                }
                assert(out@ =~= done + row_commands(line as int, row@.take(column + 1)));
                column = column + 1;
            }
            proof {
                assert(row@.take(row@.len() as int) =~= row@);
                lemma_rows_step(rows, line as int);
            }
            assert(out@ =~= head + rows_commands(rows.take(line + 1)));
            line = line + 1;
        }
        assert(rows.take(rows.len() as int) =~= rows);
        out
    }
}

/// Whether any of `events` asks to quit.
pub open spec fn has_quit(events: Seq<InputEvent>) -> bool {
    exists|i: int| 0 <= i < events.len() && #[trigger] events[i].is_quit()
}

/// After a successful drain the quit flag is set exactly when it was set before or a quit
/// or escape event came in: once set, it stays set.
pub proof fn lemma_quit_is_terminal(v: RendererView, events: Seq<InputEvent>)
    ensures
        intake(v, events) matches Ok(w) ==> (w.quit <==> (v.quit || has_quit(events))),
    decreases events.len(),
{
    if events.len() > 0 {
        if let Ok(u) = apply_event(v, events[0]) {
            let rest = events.drop_first();
            lemma_quit_is_terminal(u, rest);
            if has_quit(events) && !events[0].is_quit() {
                let i = choose|i: int| 0 <= i < events.len() && #[trigger] events[i].is_quit();
                assert(rest[i - 1].is_quit());
            }
            if has_quit(rest) {
                let i = choose|i: int| 0 <= i < rest.len() && #[trigger] rest[i].is_quit();
                assert(events[i + 1].is_quit());
            }
            if events[0].is_quit() {
                assert(has_quit(events));
            }
        }
    }
}

/// A resize replaces the grid wholesale: draining any events and then a resize that fits
/// leaves a blank grid of the new size, whatever came before, with the quit flag as the
/// earlier events left it.
pub proof fn lemma_resize_replaces_grid(
    v: RendererView,
    events: Seq<InputEvent>,
    width: u32,
    height: u32,
)
    requires
        intake(v, events) is Ok,
        fits_window(width, height),
    ensures
        intake(v, events.push(InputEvent::Resized { width, height })) == Ok::<
            RendererView,
            GridError,
        >(
            RendererView {
                quit: intake(v, events)->Ok_0.quit,
                dimensions: window_dimensions(width, height),
                rows: blank_rows(window_dimensions(width, height)),
            },
        ),
    decreases events.len(),
{
    let e = InputEvent::Resized { width, height };
    let all = events.push(e);
    if events.len() == 0 {
        assert(all.drop_first() =~= Seq::<InputEvent>::empty());
        let w = apply_event(v, e)->Ok_0;
        assert(intake(w, all.drop_first()) == Ok::<RendererView, GridError>(w));
    } else {
        assert(all[0] == events[0]);
        let u = apply_event(v, events[0])->Ok_0;
        let rest = events.drop_first();
        assert(all.drop_first() =~= rest.push(e));
        assert(apply_event(v, events[0]) is Ok);
        assert(intake(v, events) == intake(u, rest));
        lemma_resize_replaces_grid(u, rest, width, height);
        assert(intake(v, all) == intake(u, all.drop_first()));
    }
}

} // verus!
