//! The renderer: it compares two frames and lists what has to be written to
//! the terminal to turn the first into the second.
use vstd::prelude::*;

use crate::frame::{blank, glyph_of, in_grid, is_frame, new_frame, with_cell, Frame};
use crate::{NUM_COLUMNS, NUM_ROWS};

verus! {

/// A background colour of the terminal.
#[derive(Clone, Copy, Debug, PartialEq, Eq)]
pub enum Color {
    Blue,
    Black,
}

/// One operation on the terminal.
#[derive(Clone, Copy, Debug, PartialEq, Eq)]
pub enum DrawOp {
    /// Set the background colour for what is written next.
    SetBackground(Color),
    /// Clear the whole screen to the background colour.
    Clear,
    /// Move the cursor to column `x`, row `y`, and write `glyph` there.
    Put { x: u16, y: u16, glyph: char },
    /// Send everything queued so far to the screen.
    Flush,
}

/// Number of cells of the grid.
pub open spec fn num_cells() -> nat {
    (NUM_COLUMNS * NUM_ROWS) as nat
}

/// What a forced repaint starts with: the screen is cleared to blue, and
/// the background is set to black for the glyphs that follow.
pub open spec fn repaint_prelude(force: bool) -> Seq<DrawOp> {
    if force {
        seq![
            DrawOp::SetBackground(Color::Blue),
            DrawOp::Clear,
            DrawOp::SetBackground(Color::Black),
        ]
    } else {
        Seq::empty()
    }
}

/// Whether the cell `(x, y)` has to be written: always when forced, else
/// where the glyph has changed.
pub open spec fn must_write(
    last: Seq<Seq<char>>,
    current: Seq<Seq<char>>,
    force: bool,
    x: int,
    y: int,
) -> bool {
    force || current[x][y] != last[x][y]
}

/// The writes for the first `rows` cells of column `x`, from the top.
pub open spec fn column_puts(
    last: Seq<Seq<char>>,
    current: Seq<Seq<char>>,
    force: bool,
    x: int,
    rows: nat,
) -> Seq<DrawOp>
    decreases rows,
{
    if rows == 0 {
        Seq::empty()
    } else {
        let y = rows - 1;
        let above = column_puts(last, current, force, x, y as nat);
        if must_write(last, current, force, x, y) {
            above.push(DrawOp::Put { x: x as u16, y: y as u16, glyph: glyph_of(current, x, y) })
        } else {
            above
        }
    }
}

/// The writes for the first `columns` columns, from the left.
pub open spec fn frame_puts(
    last: Seq<Seq<char>>,
    current: Seq<Seq<char>>,
    force: bool,
    columns: nat,
) -> Seq<DrawOp>
    decreases columns,
{
    if columns == 0 {
        Seq::empty()
    } else {
        frame_puts(last, current, force, (columns - 1) as nat) + column_puts(
            last,
            current,
            force,
            columns - 1,
            NUM_ROWS as nat,
        )
    }
}

/// Everything the renderer emits for one frame: the prelude of a forced
/// repaint, the writes of the cells, and one flush at the end.
pub open spec fn render_ops(last: Seq<Seq<char>>, current: Seq<Seq<char>>, force: bool) -> Seq<
    DrawOp,
> {
    repaint_prelude(force) + frame_puts(last, current, force, NUM_COLUMNS as nat)
        + seq![DrawOp::Flush]
}

/// How many cells the operations write.
pub open spec fn writes(ops: Seq<DrawOp>) -> nat
    decreases ops.len(),
{
    if ops.len() == 0 {
        0
    } else if ops.last() is Put {
        writes(ops.drop_last()) + 1
    } else {
        writes(ops.drop_last())
    }
}

/// The screen after one operation: a write replaces the glyph of its cell,
/// clearing empties every cell, and nothing else changes what is shown.
pub open spec fn applied(screen: Seq<Seq<char>>, op: DrawOp) -> Seq<Seq<char>> {
    match op {
        DrawOp::Put { x, y, glyph } => with_cell(screen, x as int, y as int, glyph),
        DrawOp::Clear => blank(),
        _ => screen,
    }
}

/// The screen after the operations, carried out in order.
pub open spec fn shown(screen: Seq<Seq<char>>, ops: Seq<DrawOp>) -> Seq<Seq<char>>
    decreases ops.len(),
{
    if ops.len() == 0 {
        screen
    } else {
        applied(shown(screen, ops.drop_last()), ops.last())
    }
}

proof fn lemma_writes_concat(first: Seq<DrawOp>, second: Seq<DrawOp>)
    ensures
        writes(first + second) == writes(first) + writes(second),
    decreases second.len(),
{
    if second.len() == 0 {
        assert(first + second == first);
    } else {
        assert((first + second).drop_last() == first + second.drop_last());
        lemma_writes_concat(first, second.drop_last());
    }
}

proof fn lemma_shown_concat(screen: Seq<Seq<char>>, first: Seq<DrawOp>, second: Seq<DrawOp>)
    ensures
        shown(screen, first + second) == shown(shown(screen, first), second),
    decreases second.len(),
{
    if second.len() == 0 {
        assert(first + second == first);
    } else {
        assert((first + second).drop_last() == first + second.drop_last());
        lemma_shown_concat(screen, first, second.drop_last());
    }
}

/// The prelude and the flush write no cell; the prelude of a forced repaint
/// leaves the screen blank, and the flush leaves it as it is.
proof fn lemma_prelude_and_flush(screen: Seq<Seq<char>>, force: bool)
    ensures
        writes(repaint_prelude(force)) == 0,
        writes(seq![DrawOp::Flush]) == 0,
        shown(screen, repaint_prelude(force)) == if force {
            blank()
        } else {
            screen
        },
        shown(screen, seq![DrawOp::Flush]) == screen,
{
    reveal_with_fuel(writes, 4);
    reveal_with_fuel(shown, 4);
}

/// What the writes of the first `rows` cells of column `x` do: on a screen
/// that agrees with `last` in that column (or on any screen, when forced),
/// those cells come to show `current` and no other cell changes.
proof fn lemma_column_puts(
    screen: Seq<Seq<char>>,
    last: Seq<Seq<char>>,
    current: Seq<Seq<char>>,
    force: bool,
    x: int,
    rows: nat,
)
    requires
        0 <= x < NUM_COLUMNS,
        rows <= NUM_ROWS,
        is_frame(screen),
        force || forall|y: int| 0 <= y < NUM_ROWS ==> screen[x][y] == last[x][y],
    ensures
        force ==> writes(column_puts(last, current, force, x, rows)) == rows,
        !force && (forall|y: int| 0 <= y < NUM_ROWS ==> current[x][y] == last[x][y])
            ==> column_puts(last, current, force, x, rows) == Seq::<DrawOp>::empty(),
        is_frame(shown(screen, column_puts(last, current, force, x, rows))),
        forall|cx: int, cy: int|
            in_grid(cx, cy) ==> #[trigger] shown(
                screen,
                column_puts(last, current, force, x, rows),
            )[cx][cy] == if cx == x && cy < rows {
                current[cx][cy]
            } else {
                screen[cx][cy]
            },
    decreases rows,
{
    if rows > 0 {
        let y = rows - 1;
        let above = column_puts(last, current, force, x, y as nat);
        let puts = column_puts(last, current, force, x, rows);
        lemma_column_puts(screen, last, current, force, x, y as nat);
        if must_write(last, current, force, x, y) {
            assert(puts.drop_last() == above);
        }
    }
}

/// What the writes of the first `columns` columns do: on a screen that
/// shows `last` (or on any screen, when forced), those columns come to show
/// `current` and the others stay as they are.
proof fn lemma_frame_puts(
    screen: Seq<Seq<char>>,
    last: Seq<Seq<char>>,
    current: Seq<Seq<char>>,
    force: bool,
    columns: nat,
)
    requires
        columns <= NUM_COLUMNS,
        is_frame(screen),
        force || screen == last,
    ensures
        force ==> writes(frame_puts(last, current, force, columns)) == columns * NUM_ROWS,
        !force && last == current ==> frame_puts(last, current, force, columns) == Seq::<
            DrawOp,
        >::empty(),
        is_frame(shown(screen, frame_puts(last, current, force, columns))),
        forall|cx: int, cy: int|
            in_grid(cx, cy) ==> #[trigger] shown(
                screen,
                frame_puts(last, current, force, columns),
            )[cx][cy] == if cx < columns {
                current[cx][cy]
            } else {
                screen[cx][cy]
            },
    decreases columns,
{
    if columns > 0 {
        let x = columns - 1;
        let left = frame_puts(last, current, force, x as nat);
        let column = column_puts(last, current, force, x, NUM_ROWS as nat);
        lemma_frame_puts(screen, last, current, force, x as nat);
        let partly = shown(screen, left);
        assert(force || forall|y: int| 0 <= y < NUM_ROWS ==> partly[x][y] == last[x][y]) by {
            if !force {
                assert forall|y: int| 0 <= y < NUM_ROWS implies partly[x][y] == last[x][y] by {
                    assert(in_grid(x, y));
                }
            }
        }
        lemma_column_puts(partly, last, current, force, x, NUM_ROWS as nat);
        lemma_writes_concat(left, column);
        lemma_shown_concat(screen, left, column);
        assert forall|cx: int, cy: int| in_grid(cx, cy) implies #[trigger] shown(
            screen,
            left + column,
        )[cx][cy] == if cx < columns {
            current[cx][cy]
        } else {
            screen[cx][cy]
        } by {
            assert(shown(partly, column)[cx][cy] == if cx == x && cy < NUM_ROWS {
                current[cx][cy]
            } else {
                partly[cx][cy]
            });
        }
    }
}

/// Rendering a frame over an equal one, without force, writes no cell: all
/// that is emitted is the flush.
pub proof fn lemma_unchanged_frame_writes_nothing(frame: Seq<Seq<char>>)
    requires
        is_frame(frame),
    ensures
        render_ops(frame, frame, false) == seq![DrawOp::Flush],
        writes(render_ops(frame, frame, false)) == 0,
{
    lemma_frame_puts(frame, frame, frame, false, NUM_COLUMNS as nat);
    lemma_prelude_and_flush(frame, false);
    assert(render_ops(frame, frame, false) =~= seq![DrawOp::Flush]);
}

/// A forced rendering writes every cell of the grid, whatever the two
/// frames hold.
pub proof fn lemma_forced_render_writes_every_cell(last: Seq<Seq<char>>, current: Seq<Seq<char>>)
    ensures
        writes(render_ops(last, current, true)) == num_cells(),
{
    lemma_frame_puts(blank(), last, current, true, NUM_COLUMNS as nat);
    lemma_prelude_and_flush(blank(), true);
    let puts = frame_puts(last, current, true, NUM_COLUMNS as nat);
    lemma_writes_concat(repaint_prelude(true), puts);
    lemma_writes_concat(repaint_prelude(true) + puts, seq![DrawOp::Flush]);
}

/// Carried out on a screen that shows `last`, the operations of a rendering
/// leave the screen showing `current`. A forced rendering does so on any
/// screen.
pub proof fn lemma_render_shows_current(
    screen: Seq<Seq<char>>,
    last: Seq<Seq<char>>,
    current: Seq<Seq<char>>,
    force: bool,
)
    requires
        is_frame(screen),
        is_frame(current),
        force || screen == last,
    ensures
        shown(screen, render_ops(last, current, force)) == current,
{
    let cleared = if force {
        blank()
    } else {
        screen
    };
    let puts = frame_puts(last, current, force, NUM_COLUMNS as nat);
    lemma_prelude_and_flush(screen, force);
    lemma_prelude_and_flush(shown(cleared, puts), force);
    lemma_frame_puts(cleared, last, current, force, NUM_COLUMNS as nat);
    lemma_shown_concat(screen, repaint_prelude(force), puts);
    lemma_shown_concat(screen, repaint_prelude(force) + puts, seq![DrawOp::Flush]);
    assert(shown(cleared, puts) =~~= current);
}

/// Lists the terminal operations that show `current_frame` on a screen that
/// shows `last_frame`.
///
/// Only cells whose glyph differs are written, so the cost follows the
/// number of changes. With `force` the screen is cleared first and every
/// cell is written. The list always ends with a single flush.
pub fn render(last_frame: &Frame, current_frame: &Frame, force: bool) -> (ops: Vec<DrawOp>)
    ensures
        ops@ == render_ops(last_frame@, current_frame@, force),
        force ==> writes(ops@) == num_cells(),
        !force && last_frame@ == current_frame@ ==> writes(ops@) == 0,
        shown(last_frame@, ops@) == current_frame@,
{
    proof {
        last_frame.lemma_dimensions();
        current_frame.lemma_dimensions();
        lemma_render_shows_current(last_frame@, last_frame@, current_frame@, force);
        if force {
            lemma_forced_render_writes_every_cell(last_frame@, current_frame@);
        } else if last_frame@ == current_frame@ {
            lemma_unchanged_frame_writes_nothing(last_frame@);
        }
    }
    let mut ops: Vec<DrawOp> = Vec::new();
    if force {
        ops.push(DrawOp::SetBackground(Color::Blue));
        ops.push(DrawOp::Clear);
        ops.push(DrawOp::SetBackground(Color::Black));
    }
    assert(ops@ == repaint_prelude(force) + frame_puts(last_frame@, current_frame@, force, 0));
    let mut x: usize = 0;
    while x < NUM_COLUMNS
        invariant
            x <= NUM_COLUMNS,
            ops@ == repaint_prelude(force) + frame_puts(
                last_frame@,
                current_frame@,
                force,
                x as nat,
            ),
        decreases NUM_COLUMNS - x,
    {
        let ghost left = ops@;
        let mut y: usize = 0;
        while y < NUM_ROWS
            invariant
                x < NUM_COLUMNS,
                y <= NUM_ROWS,
                ops@ == left + column_puts(
                    last_frame@,
                    current_frame@,
                    force,
                    x as int,
                    y as nat,
                ),
            decreases NUM_ROWS - y,
        {
            let glyph = current_frame.cell(x, y);
            if force || glyph != last_frame.cell(x, y) {
                ops.push(DrawOp::Put { x: x as u16, y: y as u16, glyph });
            }
            assert(ops@ == left + column_puts(
                last_frame@,
                current_frame@,
                force,
                x as int,
                (y + 1) as nat,
            ));
            y += 1;
        }
        x += 1;
    }
    ops.push(DrawOp::Flush);
    ops
}

/// The renderer's memory: the frame that the screen shows.
///
/// The renderer is the only writer of the screen. It keeps the last frame it
/// was given, so that the next one costs only the cells that changed.
pub struct Renderer {
    last_frame: Frame,
}

impl View for Renderer {
    type V = Seq<Seq<char>>;

    closed spec fn view(&self) -> Seq<Seq<char>> {
        self.last_frame@
    }
}

impl Renderer {
    /// Starts rendering: the operations paint the whole screen with an empty
    /// frame, whatever it showed before.
    pub fn start() -> (started: (Renderer, Vec<DrawOp>))
        ensures
            started.0@ == blank(),
            started.1@ == render_ops(blank(), blank(), true),
            writes(started.1@) == num_cells(),
    {
        let last_frame = new_frame();
        let ops = render(&last_frame, &last_frame, true);
        (Renderer { last_frame }, ops)
    }

    /// Takes the next frame: the operations turn the screen from the frame
    /// before into `frame`, which is kept for the next time.
    pub fn present(&mut self, frame: Frame) -> (ops: Vec<DrawOp>)
        ensures
            ops@ == render_ops(old(self)@, frame@, false),
            shown(old(self)@, ops@) == frame@,
            final(self)@ == frame@,
    {
        let ops = render(&self.last_frame, &frame, false);
        self.last_frame = frame;
        ops
    }
}

} // verus!
