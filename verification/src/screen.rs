//! A model of the terminal that the renderer writes to, and what the
//! renderer's output does to it.
//!
//! The model is a grid of cells with a cursor and two current colors. The
//! cursor does not wrap: a glyph printed in the last column leaves it there,
//! and a relative move stops at the edge of the grid.

use vstd::prelude::*;
use crate::ansi::{Dir, Glyph, Op};
use crate::color::Rgb;
use crate::image::Frame;
use crate::ansi::shift_ops;
use crate::image_to_ansi::{
    cell_ops, cell_pen, changed, diff_cell, diff_ops, diff_row, diff_rows, full_cell_ops,
    full_cell_pen, half_cell_ops, half_cell_pen, move_ops, next_row_ops, redraw_ops, redraw_row,
    redraw_rows, DiffState, Pen,
};

verus! {

/// What one cell shows: the colors of its upper and lower half.
pub struct Cell {
    pub top: Rgb,
    pub bottom: Rgb,
}

impl Glyph {
    /// What a cell shows after this glyph is printed with the given colors.
    pub open spec fn paint(self, fg: Rgb, bg: Rgb) -> Cell {
        match self {
            Glyph::Upper => Cell { top: fg, bottom: bg },
            Glyph::Lower => Cell { top: bg, bottom: fg },
            Glyph::Full => Cell { top: fg, bottom: fg },
        }
    }
}

/// The state of a terminal.
pub struct Screen {
    /// Number of columns.
    pub cols: int,
    /// Number of text rows.
    pub lines: int,
    /// What each cell shows, by column and text row.
    pub cells: Map<(int, int), Cell>,
    /// How many glyphs were printed to each cell.
    pub paints: Map<(int, int), nat>,
    /// Cursor column.
    pub col: int,
    /// Cursor text row.
    pub row: int,
    /// Current foreground color.
    pub fg: Rgb,
    /// Current background color.
    pub bg: Rgb,
    /// Foreground color after a reset.
    pub default_fg: Rgb,
    /// Background color after a reset.
    pub default_bg: Rgb,
}

impl Screen {
    /// The cursor is inside the grid.
    pub open spec fn valid(self) -> bool {
        0 <= self.col < self.cols && 0 <= self.row < self.lines
    }

    /// The screen after a relative cursor move by `n` cells, which stops at
    /// the edge of the grid.
    pub open spec fn shifted(self, d: Dir, n: int) -> Screen {
        match d {
            Dir::Right => Screen {
                col: if self.col + n < self.cols {
                    self.col + n
                } else {
                    self.cols - 1
                },
                ..self
            },
            Dir::Left => Screen {
                col: if self.col - n >= 0 {
                    self.col - n
                } else {
                    0
                },
                ..self
            },
            Dir::Down => Screen {
                row: if self.row + n < self.lines {
                    self.row + n
                } else {
                    self.lines - 1
                },
                ..self
            },
            Dir::Up => Screen {
                row: if self.row - n >= 0 {
                    self.row - n
                } else {
                    0
                },
                ..self
            },
        }
    }

    /// The screen after one unit of output. A parameterized move by zero
    /// moves by one cell, as terminals read a zero parameter.
    pub open spec fn apply(self, op: Op) -> Screen {
        match op {
            Op::Fg(c) => Screen { fg: c, ..self },
            Op::Bg(c) => Screen { bg: c, ..self },
            Op::Put(g) => Screen {
                cells: self.cells.insert((self.col, self.row), g.paint(self.fg, self.bg)),
                paints: self.paints.insert(
                    (self.col, self.row),
                    self.paints[(self.col, self.row)] + 1,
                ),
                col: if self.col + 1 < self.cols {
                    self.col + 1
                } else {
                    self.col
                },
                ..self
            },
            Op::Step(d) => self.shifted(d, 1),
            Op::Move(d, n) => self.shifted(
                d,
                if n == 0 {
                    1
                } else {
                    n as int
                },
            ),
            Op::Reset => Screen { fg: self.default_fg, bg: self.default_bg, ..self },
        }
    }

    /// The screen after a sequence of units.
    pub open spec fn replay(self, ops: Seq<Op>) -> Screen
        decreases ops.len(),
    {
        if ops.len() == 0 {
            self
        } else {
            self.replay(ops.drop_last()).apply(ops.last())
        }
    }

    /// The color shown at column `x` of pixel row `y`.
    pub open spec fn pixel(self, x: int, y: int) -> Rgb {
        let cell = self.cells[(x, y / 2)];
        if y % 2 == 0 {
            cell.top
        } else {
            cell.bottom
        }
    }

    /// The screen shows `img` with its upper left pixel in column `ox` of
    /// text row `oy`.
    pub open spec fn shows(self, img: Frame, ox: int, oy: int) -> bool {
        forall|x: int, y: int|
            0 <= x < img.width && 0 <= y < img.height ==> #[trigger] img.at(x, y) == self.pixel(
                ox + x,
                2 * oy + y,
            )
    }

    /// Nothing but the cursor and the colors differs between the two screens.
    pub open spec fn same_grid(self, other: Screen) -> bool {
        &&& self.cols == other.cols
        &&& self.lines == other.lines
        &&& self.default_fg == other.default_fg
        &&& self.default_bg == other.default_bg
    }
}

/// Replaying two sequences, one after the other, is replaying the second on
/// what the first leaves.
pub proof fn lemma_replay_concat(s: Screen, a: Seq<Op>, b: Seq<Op>)
    ensures
        s.replay(a + b) == s.replay(a).replay(b),
    decreases b.len(),
{
    if b.len() == 0 {
        assert(a + b =~= a);
    } else {
        lemma_replay_concat(s, a, b.drop_last());
        assert((a + b).drop_last() =~= a + b.drop_last());
        assert((a + b).last() == b.last());
    }
}

/// Replaying nothing changes nothing.
pub proof fn lemma_replay_empty(s: Screen)
    ensures
        s.replay(Seq::empty()) == s,
{
}

/// Replaying a single unit.
pub proof fn lemma_replay_one(s: Screen, a: Op)
    ensures
        s.replay(seq![a]) == s.apply(a),
{
    lemma_replay_empty(s);
    assert(seq![a].drop_last() =~= Seq::<Op>::empty());
    assert(seq![a].last() == a);
}

/// Replaying two units.
pub proof fn lemma_replay_two(s: Screen, a: Op, b: Op)
    ensures
        s.replay(seq![a, b]) == s.apply(a).apply(b),
{
    lemma_replay_one(s, a);
    assert(seq![a, b].drop_last() =~= seq![a]);
}

/// Replaying three units.
pub proof fn lemma_replay_three(s: Screen, a: Op, b: Op, c: Op)
    ensures
        s.replay(seq![a, b, c]) == s.apply(a).apply(b).apply(c),
{
    lemma_replay_two(s, a, b);
    assert(seq![a, b, c].drop_last() =~= seq![a, b]);
}

/// The recorded color roles agree with the screen's current colors: a
/// recorded foreground is the current one, and a recorded background is the
/// current one unless it was recorded by a full block, which records its
/// color for both roles and sets only the foreground.
pub open spec fn pen_fits(pen: Pen, s: Screen) -> bool {
    &&& pen.fg matches Some(c) ==> s.fg == c
    &&& pen.bg matches Some(c) ==> s.bg == c || pen.fg == Some(c)
}

/// The cell in column `x` of text row `row` of `img` is shown on the screen,
/// where the image's upper left cell is in column `ox` of text row `oy`. Of a
/// text row that holds a single pixel row only the upper half counts.
pub open spec fn cell_shown(s: Screen, img: Frame, ox: int, oy: int, x: int, row: int) -> bool {
    &&& s.cells[(ox + x, oy + row)].top == img.top(x, row)
    &&& !img.half_row(row) ==> s.cells[(ox + x, oy + row)].bottom == img.bottom(x, row)
}

/// The cursor column after a glyph was printed.
pub open spec fn advanced(s: Screen) -> int {
    if s.col + 1 < s.cols {
        s.col + 1
    } else {
        s.col
    }
}

/// Writing a cell of two pixels paints exactly the cell under the cursor
/// with these pixels, and the recorded roles agree with the screen afterwards.
pub proof fn lemma_replay_full_cell(s: Screen, pen: Pen, top: Rgb, bottom: Rgb)
    requires
        pen_fits(pen, s),
    ensures
        ({
            let t = s.replay(full_cell_ops(pen, top, bottom));
            &&& t.cells == s.cells.insert((s.col, s.row), Cell { top, bottom })
            &&& t.paints == s.paints.insert((s.col, s.row), s.paints[(s.col, s.row)] + 1)
            &&& t.col == advanced(s)
            &&& t.row == s.row
            &&& t.same_grid(s)
            &&& pen_fits(full_cell_pen(pen, top, bottom), t)
        }),
{
    let put_full = Op::Put(Glyph::Full);
    let put_lower = Op::Put(Glyph::Lower);
    let put_upper = Op::Put(Glyph::Upper);
    if top == bottom {
        if pen.fg == Some(top) && pen.bg == Some(top) {
            lemma_replay_one(s, put_full);
        } else {
            lemma_replay_two(s, Op::Fg(top), put_full);
        }
    } else if pen.fg == Some(bottom) && pen.bg == Some(top) {
        lemma_replay_one(s, put_lower);
    } else if pen.fg == Some(top) && pen.bg == Some(bottom) {
        lemma_replay_one(s, put_upper);
    } else if pen.fg == Some(bottom) {
        lemma_replay_two(s, Op::Bg(top), put_lower);
    } else if pen.fg == Some(top) {
        lemma_replay_two(s, Op::Bg(bottom), put_upper);
    } else if pen.bg == Some(top) {
        lemma_replay_two(s, Op::Fg(bottom), put_lower);
    } else if pen.bg == Some(bottom) {
        lemma_replay_two(s, Op::Fg(top), put_upper);
    } else {
        lemma_replay_three(s, Op::Bg(top), Op::Fg(bottom), put_lower);
    }
}

/// Writing a cell of a single pixel paints the upper half of the cell under
/// the cursor with it, and leaves every other cell as it was.
pub proof fn lemma_replay_half_cell(s: Screen, pen: Pen, color: Rgb)
    requires
        pen_fits(pen, s),
    ensures
        ({
            let t = s.replay(half_cell_ops(pen, color));
            &&& t.cells == s.cells.insert((s.col, s.row), Cell { top: color, bottom: t.bg })
            &&& t.paints == s.paints.insert((s.col, s.row), s.paints[(s.col, s.row)] + 1)
            &&& t.col == advanced(s)
            &&& t.row == s.row
            &&& t.same_grid(s)
            &&& pen_fits(half_cell_pen(pen, color), t)
        }),
{
    if pen.fg == Some(color) {
        lemma_replay_one(s, Op::Put(Glyph::Upper));
    } else {
        lemma_replay_two(s, Op::Fg(color), Op::Put(Glyph::Upper));
    }
}

/// Writing the cell in column `x` of text row `row` with the cursor on its
/// place shows the cell there and changes no other cell.
pub proof fn lemma_replay_cell(s: Screen, img: Frame, pen: Pen, ox: int, oy: int, x: int, row: int)
    requires
        pen_fits(pen, s),
        s.col == ox + x,
        s.row == oy + row,
    ensures
        ({
            let t = s.replay(cell_ops(img, pen, x, row));
            &&& cell_shown(t, img, ox, oy, x, row)
            &&& forall|p: (int, int)| p != (s.col, s.row) ==> #[trigger] t.cells[p] == s.cells[p]
            &&& t.paints[(s.col, s.row)] == s.paints[(s.col, s.row)] + 1
            &&& forall|p: (int, int)| p != (s.col, s.row) ==> #[trigger] t.paints[p] == s.paints[p]
            &&& t.col == advanced(s)
            &&& t.row == s.row
            &&& t.same_grid(s)
            &&& pen_fits(cell_pen(img, pen, x, row), t)
        }),
{
    if img.half_row(row) {
        lemma_replay_half_cell(s, pen, img.top(x, row));
    } else {
        lemma_replay_full_cell(s, pen, img.top(x, row), img.bottom(x, row));
    }
}


/// The cursor column after `n` glyphs were printed from column `ox` on.
pub open spec fn column_after(s: Screen, ox: int, n: int) -> int {
    if ox + n < s.cols {
        ox + n
    } else {
        s.cols - 1
    }
}

/// Writing the first `upto` cells of a text row, with the cursor on the
/// row's first cell, shows these cells and changes no other cell.
pub proof fn lemma_replay_redraw_row(s: Screen, img: Frame, ox: int, oy: int, row: int, upto: int)
    requires
        s.col == ox,
        s.row == oy + row,
        0 <= ox < s.cols,
        ox + img.width <= s.cols,
        0 <= upto <= img.width,
    ensures
        ({
            let t = s.replay(redraw_row(img, row, upto).ops);
            &&& forall|x: int| 0 <= x < upto ==> #[trigger] cell_shown(t, img, ox, oy, x, row)
            &&& forall|p: (int, int)|
                !(p.1 == s.row && ox <= p.0 < ox + upto) ==> #[trigger] t.cells[p] == s.cells[p]
            &&& forall|p: (int, int)|
                #[trigger] t.paints[p] == if p.1 == s.row && ox <= p.0 < ox + upto {
                    s.paints[p] + 1
                } else {
                    s.paints[p]
                }
            &&& t.col == column_after(s, ox, upto)
            &&& t.row == s.row
            &&& t.same_grid(s)
            &&& pen_fits(redraw_row(img, row, upto).pen, t)
        }),
    decreases upto,
{
    if upto <= 0 {
        lemma_replay_empty(s);
    } else {
        let before = redraw_row(img, row, upto - 1);
        let mid = s.replay(before.ops);
        lemma_replay_redraw_row(s, img, ox, oy, row, upto - 1);
        let cell = cell_ops(img, before.pen, upto - 1, row);
        lemma_replay_concat(s, before.ops, cell);
        lemma_replay_cell(mid, img, before.pen, ox, oy, upto - 1, row);
        let t = mid.replay(cell);
        assert(t == s.replay(redraw_row(img, row, upto).ops));
        assert forall|x: int| 0 <= x < upto implies #[trigger] cell_shown(
            t,
            img,
            ox,
            oy,
            x,
            row,
        ) by {
            if x < upto - 1 {
                assert(cell_shown(mid, img, ox, oy, x, row));
                assert(t.cells[(ox + x, oy + row)] == mid.cells[(ox + x, oy + row)]);
            }
        }
        assert forall|p: (int, int)|
            !(p.1 == s.row && ox <= p.0 < ox + upto) implies #[trigger] t.cells[p]
            == s.cells[p] by {
            assert(t.cells[p] == mid.cells[p]);
            assert(mid.cells[p] == s.cells[p]);
        }
        assert forall|p: (int, int)|
            #[trigger] t.paints[p] == if p.1 == s.row && ox <= p.0 < ox + upto {
                s.paints[p] + 1
            } else {
                s.paints[p]
            } by {
            if p != (mid.col, mid.row) {
                assert(t.paints[p] == mid.paints[p]);
            }
        }
    }
}

/// Writing the first `upto` text rows, with the cursor on the image's upper
/// left cell, shows these rows.
pub proof fn lemma_replay_redraw_rows(s: Screen, img: Frame, ox: int, oy: int, upto: int)
    requires
        s.col == ox,
        s.row == oy,
        0 <= ox,
        0 <= oy,
        img.width >= 1,
        ox + img.width <= s.cols,
        oy + img.rows() <= s.lines,
        ox == 0 || ox + img.width < s.cols,
        0 <= upto <= img.rows(),
    ensures
        ({
            let t = s.replay(redraw_rows(img, upto));
            &&& forall|x: int, r: int|
                0 <= x < img.width && 0 <= r < upto ==> #[trigger] cell_shown(t, img, ox, oy, x, r)
            &&& forall|p: (int, int)|
                #[trigger] t.paints[p] == if ox <= p.0 < ox + img.width && oy <= p.1 < oy + upto {
                    s.paints[p] + 1
                } else {
                    s.paints[p]
                }
            &&& upto >= 1 ==> t.col == column_after(s, ox, img.width as int) && t.row == oy + upto
                - 1
            &&& upto == 0 ==> t == s
            &&& t.same_grid(s)
        }),
    decreases upto,
{
    if upto <= 0 {
        lemma_replay_empty(s);
    } else {
        let row = upto - 1;
        let done = redraw_rows(img, row);
        let sep = if row > 0 {
            next_row_ops(img)
        } else {
            Seq::<Op>::empty()
        };
        let cells = redraw_row(img, row, img.width as int).ops;
        lemma_replay_redraw_rows(s, img, ox, oy, row);
        let a = s.replay(done);
        lemma_replay_concat(s, done, sep);
        lemma_replay_concat(s, done + sep, cells);
        let b = a.replay(sep);
        if row > 0 {
            lemma_replay_two(a, Op::Move(Dir::Left, img.width), Op::Move(Dir::Down, 1));
        } else {
            lemma_replay_empty(a);
        }
        assert(b.col == ox);
        assert(b.row == oy + row);
        assert(b.cells == a.cells);
        assert(b.paints == a.paints);
        lemma_replay_redraw_row(b, img, ox, oy, row, img.width as int);
        let t = b.replay(cells);
        assert(t == s.replay(redraw_rows(img, upto)));
        assert forall|x: int, r: int| 0 <= x < img.width && 0 <= r < upto implies #[trigger] cell_shown(
            t,
            img,
            ox,
            oy,
            x,
            r,
        ) by {
            if r < row {
                assert(cell_shown(a, img, ox, oy, x, r));
                assert(t.cells[(ox + x, oy + r)] == b.cells[(ox + x, oy + r)]);
            }
        }
        assert forall|p: (int, int)|
            #[trigger] t.paints[p] == if ox <= p.0 < ox + img.width && oy <= p.1 < oy + upto {
                s.paints[p] + 1
            } else {
                s.paints[p]
            } by {
            assert(t.paints[p] == if p.1 == b.row && ox <= p.0 < ox + img.width {
                b.paints[p] + 1
            } else {
                b.paints[p]
            });
            assert(a.paints[p] == if ox <= p.0 < ox + img.width && oy <= p.1 < oy + row {
                s.paints[p] + 1
            } else {
                s.paints[p]
            });
        }
    }
}

/// A screen on which every cell of `img` is shown shows every pixel of it.
pub proof fn lemma_cells_shown(s: Screen, img: Frame, ox: int, oy: int)
    requires
        forall|x: int, r: int|
            0 <= x < img.width && 0 <= r < img.rows() ==> #[trigger] cell_shown(
                s,
                img,
                ox,
                oy,
                x,
                r,
            ),
    ensures
        s.shows(img, ox, oy),
{
    assert forall|x: int, y: int| 0 <= x < img.width && 0 <= y < img.height implies #[trigger] img.at(
        x,
        y,
    ) == s.pixel(ox + x, 2 * oy + y) by {
        let r = y / 2;
        assert(cell_shown(s, img, ox, oy, x, r));
        assert((2 * oy + y) / 2 == oy + r);
        if y % 2 == 0 {
            assert(2 * r == y);
            assert((2 * oy + y) % 2 == 0);
        } else {
            assert(2 * r + 1 == y);
            assert((2 * oy + y) % 2 == 1);
            assert(!img.half_row(r));
        }
    }
}

/// A full redraw reconstructs the image: after the output of a full redraw
/// of `img` is replayed on a screen whose cursor is in column `ox` of text row
/// `oy`, whatever the screen showed before, it shows every pixel of `img`
/// with the upper left pixel at the cursor's first place, and every cell of
/// the image got exactly one glyph.
///
/// The image has to fit on the screen from there, and to start in the first
/// column if it reaches the last one: the move back to a row's start counts
/// on that.
pub proof fn lemma_full_redraw_shows_image(s: Screen, img: Frame, ox: int, oy: int)
    requires
        s.col == ox,
        s.row == oy,
        0 <= ox,
        0 <= oy,
        ox + img.width <= s.cols,
        oy + img.rows() <= s.lines,
        ox == 0 || ox + img.width < s.cols,
    ensures
        s.replay(redraw_ops(img)).shows(img, ox, oy),
        forall|x: int, row: int|
            0 <= x < img.width && 0 <= row < img.rows() ==> #[trigger] s.replay(
                redraw_ops(img),
            ).paints[(ox + x, oy + row)] == s.paints[(ox + x, oy + row)] + 1,
{
    let t = s.replay(redraw_ops(img));
    if img.rows() > 0 && img.width >= 1 {
        let rows = redraw_rows(img, img.rows() as int);
        lemma_replay_redraw_rows(s, img, ox, oy, img.rows() as int);
        let a = s.replay(rows);
        assert(rows.push(Op::Reset).drop_last() =~= rows);
        assert(t == a.apply(Op::Reset));
        assert forall|x: int, r: int| 0 <= x < img.width && 0 <= r < img.rows() implies #[trigger] cell_shown(
            t,
            img,
            ox,
            oy,
            x,
            r,
        ) by {
            assert(cell_shown(a, img, ox, oy, x, r));
        }
        lemma_cells_shown(t, img, ox, oy);
        assert(t.paints == a.paints);
        assert forall|x: int, row: int| 0 <= x < img.width && 0 <= row < img.rows() implies #[trigger] t.paints[(
            ox + x,
            oy + row,
        )] == s.paints[(ox + x, oy + row)] + 1 by {
            let p = (ox + x, oy + row);
            assert(a.paints[p] == if ox <= p.0 < ox + img.width && oy <= p.1 < oy + img.rows() {
                s.paints[p] + 1
            } else {
                s.paints[p]
            });
        }
    }
}


/// A relative move that stays inside the grid moves the cursor by exactly
/// its distance and changes nothing else.
pub proof fn lemma_replay_shift(s: Screen, d: Dir, n: int)
    requires
        s.valid(),
        n >= 0,
        match d {
            Dir::Right => s.col + n < s.cols,
            Dir::Left => s.col - n >= 0,
            Dir::Down => s.row + n < s.lines,
            Dir::Up => s.row - n >= 0,
        },
    ensures
        ({
            let t = s.replay(shift_ops(d, n));
            &&& t.cells == s.cells
            &&& t.paints == s.paints
            &&& t.fg == s.fg
            &&& t.bg == s.bg
            &&& t.same_grid(s)
            &&& t.col == match d {
                Dir::Right => s.col + n,
                Dir::Left => s.col - n,
                _ => s.col,
            }
            &&& t.row == match d {
                Dir::Down => s.row + n,
                Dir::Up => s.row - n,
                _ => s.row,
            }
        }),
{
    if n <= 0 {
        lemma_replay_empty(s);
    } else if n == 1 {
        lemma_replay_one(s, Op::Step(d));
    } else {
        lemma_replay_one(s, Op::Move(d, n as nat));
    }
}

/// The move from one cell of the grid to another takes the cursor there and
/// changes nothing else.
pub proof fn lemma_replay_move(s: Screen, ox: int, oy: int, cx: int, cy: int, x: int, y: int)
    requires
        s.valid(),
        s.col == ox + cx,
        s.row == oy + cy,
        0 <= ox + x < s.cols,
        0 <= oy + y < s.lines,
    ensures
        ({
            let t = s.replay(move_ops(cx, cy, x, y));
            &&& t.cells == s.cells
            &&& t.paints == s.paints
            &&& t.fg == s.fg
            &&& t.bg == s.bg
            &&& t.same_grid(s)
            &&& t.col == ox + x
            &&& t.row == oy + y
        }),
{
    let horizontal = if x > cx {
        shift_ops(Dir::Right, x - cx)
    } else {
        shift_ops(Dir::Left, cx - x)
    };
    let vertical = if y > cy {
        shift_ops(Dir::Down, y - cy)
    } else {
        shift_ops(Dir::Up, cy - y)
    };
    lemma_replay_concat(s, horizontal, vertical);
    if x > cx {
        lemma_replay_shift(s, Dir::Right, x - cx);
    } else {
        lemma_replay_shift(s, Dir::Left, cx - x);
    }
    let mid = s.replay(horizontal);
    if y > cy {
        lemma_replay_shift(mid, Dir::Down, y - cy);
    } else {
        lemma_replay_shift(mid, Dir::Up, cy - y);
    }
}

/// The place `p` of the grid holds a cell of the image that the update has
/// gone past when it stands before column `upto` of text row `row`.
pub open spec fn passed(img: Frame, ox: int, oy: int, row: int, upto: int, p: (int, int)) -> bool {
    &&& ox <= p.0 < ox + img.width
    &&& oy <= p.1 < oy + row || (p.1 == oy + row && p.0 < ox + upto)
}

/// What holds of the screen `t` while an update of the screen `s` stands
/// before column `upto` of text row `row`: the cursor is where the renderer
/// takes it to be, the cells gone past show the image, all others are as
/// they were, and the recorded color roles agree with the screen.
pub open spec fn diff_inv(
    s: Screen,
    t: Screen,
    img: Frame,
    ox: int,
    oy: int,
    row: int,
    upto: int,
    st: DiffState,
) -> bool {
    &&& t.same_grid(s)
    &&& t.col == ox + st.col
    &&& t.row == oy + st.row
    &&& 0 <= st.col
    &&& 0 <= st.row <= row
    &&& st.row < img.rows()
    &&& t.col < t.cols
    &&& forall|x: int, r: int|
        0 <= x < img.width && 0 <= r < img.rows() && (r < row || (r == row && x < upto))
            ==> #[trigger] cell_shown(t, img, ox, oy, x, r)
    &&& forall|p: (int, int)|
        !passed(img, ox, oy, row, upto, p) ==> #[trigger] t.cells[p] == s.cells[p]
    &&& pen_fits(st.pen, t)
}

/// What the differential renderer counts on: the image fits on the screen
/// from the cell in column `ox` of text row `oy` on, `full_width` says
/// whether it reaches the last column, and every cell that is the same in
/// the previous frame and in the image shows the image already.
pub open spec fn diff_ready(
    s: Screen,
    prev: Frame,
    img: Frame,
    full_width: bool,
    ox: int,
    oy: int,
) -> bool {
    &&& prev.width >= img.width
    &&& prev.height >= img.height
    &&& 0 <= ox
    &&& 0 <= oy
    &&& ox + img.width <= s.cols
    &&& oy + img.rows() <= s.lines
    &&& full_width <==> ox + img.width == s.cols
    &&& forall|x: int, row: int|
        0 <= x < img.width && 0 <= row < img.rows() && !changed(prev, img, x, row)
            ==> #[trigger] cell_shown(s, img, ox, oy, x, row)
}

/// A screen that shows the previous frame is one that the differential
/// renderer can count on.
pub proof fn lemma_shown_frame_ready(
    s: Screen,
    prev: Frame,
    img: Frame,
    full_width: bool,
    ox: int,
    oy: int,
)
    requires
        prev.width >= img.width,
        prev.height >= img.height,
        0 <= ox,
        0 <= oy,
        ox + img.width <= s.cols,
        oy + img.rows() <= s.lines,
        full_width <==> ox + img.width == s.cols,
        s.shows(prev, ox, oy),
    ensures
        diff_ready(s, prev, img, full_width, ox, oy),
{
    assert forall|x: int, row: int|
        0 <= x < img.width && 0 <= row < img.rows() && !changed(
            prev,
            img,
            x,
            row,
        ) implies #[trigger] cell_shown(s, img, ox, oy, x, row) by {
        lemma_unchanged_cell_shown(s, prev, img, ox, oy, x, row);
    }
}

/// A cell that the update leaves alone shows the image already.
pub proof fn lemma_unchanged_cell_shown(
    s: Screen,
    prev: Frame,
    img: Frame,
    ox: int,
    oy: int,
    x: int,
    row: int,
)
    requires
        prev.width >= img.width,
        prev.height >= img.height,
        s.shows(prev, ox, oy),
        0 <= x < img.width,
        0 <= row < img.rows(),
        !changed(prev, img, x, row),
    ensures
        cell_shown(s, img, ox, oy, x, row),
{
    assert(prev.at(x, 2 * row) == s.pixel(ox + x, 2 * oy + 2 * row));
    assert((2 * oy + 2 * row) / 2 == oy + row);
    assert((2 * oy + 2 * row) % 2 == 0);
    if !img.half_row(row) {
        assert(prev.at(x, 2 * row + 1) == s.pixel(ox + x, 2 * oy + (2 * row + 1)));
        assert((2 * oy + (2 * row + 1)) / 2 == oy + row);
        assert((2 * oy + (2 * row + 1)) % 2 == 1);
    }
}

/// One cell of an update keeps what holds of the screen.
pub proof fn lemma_replay_diff_cell(
    s: Screen,
    prev: Frame,
    img: Frame,
    full_width: bool,
    ox: int,
    oy: int,
    row: int,
    x: int,
    st: DiffState,
)
    requires
        diff_ready(s, prev, img, full_width, ox, oy),
        0 <= x < img.width,
        0 <= row < img.rows(),
        diff_inv(s, s.replay(st.ops), img, ox, oy, row, x, st),
    ensures
        ({
            let next = diff_cell(prev, img, full_width, x, row, st);
            diff_inv(s, s.replay(next.ops), img, ox, oy, row, x + 1, next)
        }),
{
    let t = s.replay(st.ops);
    let next = diff_cell(prev, img, full_width, x, row, st);
    if changed(prev, img, x, row) {
        let mv = move_ops(st.col, st.row, x, row);
        let cell = cell_ops(img, st.pen, x, row);
        lemma_replay_concat(s, st.ops, mv);
        lemma_replay_concat(s, st.ops + mv, cell);
        lemma_replay_move(t, ox, oy, st.col, st.row, x, row);
        let m = t.replay(mv);
        lemma_replay_cell(m, img, st.pen, ox, oy, x, row);
        let u = m.replay(cell);
        assert(u == s.replay(next.ops));
        assert forall|xx: int, r: int|
            0 <= xx < img.width && 0 <= r < img.rows() && (r < row || (r == row && xx < x + 1))
            implies #[trigger] cell_shown(u, img, ox, oy, xx, r) by {
            if !(r == row && xx == x) {
                assert(cell_shown(t, img, ox, oy, xx, r));
                assert(u.cells[(ox + xx, oy + r)] == m.cells[(ox + xx, oy + r)]);
            }
        }
        assert forall|p: (int, int)| !passed(img, ox, oy, row, x + 1, p) implies #[trigger] u.cells[p]
            == s.cells[p] by {
            assert(!passed(img, ox, oy, row, x, p));
            assert(u.cells[p] == m.cells[p]);
            assert(t.cells[p] == s.cells[p]);
        }
    } else {
        assert(next.ops == st.ops);
        assert forall|xx: int, r: int|
            0 <= xx < img.width && 0 <= r < img.rows() && (r < row || (r == row && xx < x + 1))
            implies #[trigger] cell_shown(t, img, ox, oy, xx, r) by {
            if r == row && xx == x {
                assert(cell_shown(s, img, ox, oy, x, row));
                assert(!passed(img, ox, oy, row, x, (ox + x, oy + row)));
                assert(t.cells[(ox + x, oy + row)] == s.cells[(ox + x, oy + row)]);
            }
        }
        assert forall|p: (int, int)| !passed(img, ox, oy, row, x + 1, p) implies #[trigger] t.cells[p]
            == s.cells[p] by {
            assert(!passed(img, ox, oy, row, x, p));
        }
    }
}

/// The cells of one text row keep what holds of the screen.
pub proof fn lemma_replay_diff_row(
    s: Screen,
    prev: Frame,
    img: Frame,
    full_width: bool,
    ox: int,
    oy: int,
    row: int,
    upto: int,
    start: DiffState,
)
    requires
        diff_ready(s, prev, img, full_width, ox, oy),
        0 <= upto <= img.width,
        0 <= row < img.rows(),
        diff_inv(s, s.replay(start.ops), img, ox, oy, row, 0, start),
    ensures
        ({
            let st = diff_row(prev, img, full_width, row, upto, start);
            diff_inv(s, s.replay(st.ops), img, ox, oy, row, upto, st)
        }),
    decreases upto,
{
    if upto > 0 {
        lemma_replay_diff_row(s, prev, img, full_width, ox, oy, row, upto - 1, start);
        let st = diff_row(prev, img, full_width, row, upto - 1, start);
        lemma_replay_diff_cell(s, prev, img, full_width, ox, oy, row, upto - 1, st);
    }
}

/// The first `upto` text rows of an update keep what holds of the screen.
pub proof fn lemma_replay_diff_rows(
    s: Screen,
    prev: Frame,
    img: Frame,
    full_width: bool,
    ox: int,
    oy: int,
    upto: int,
)
    requires
        diff_ready(s, prev, img, full_width, ox, oy),
        s.valid(),
        s.col == ox,
        s.row == oy,
        img.rows() > 0,
        0 <= upto <= img.rows(),
    ensures
        ({
            let st = diff_rows(prev, img, full_width, upto);
            diff_inv(s, s.replay(st.ops), img, ox, oy, upto, 0, st)
        }),
    decreases upto,
{
    if upto <= 0 {
        lemma_replay_empty(s);
    } else {
        let row = upto - 1;
        lemma_replay_diff_rows(s, prev, img, full_width, ox, oy, row);
        let start = diff_rows(prev, img, full_width, row);
        lemma_replay_diff_row(s, prev, img, full_width, ox, oy, row, img.width as int, start);
        let st = diff_row(prev, img, full_width, row, img.width as int, start);
        let t = s.replay(st.ops);
        assert forall|p: (int, int)| !passed(img, ox, oy, upto, 0, p) implies #[trigger] t.cells[p]
            == s.cells[p] by {
            assert(!passed(img, ox, oy, row, img.width as int, p));
        }
    }
}

/// An update turns a screen on which the cells that it leaves alone show
/// the image, as they do on a screen that shows the previous frame, into one
/// that shows the image.
///
/// The cursor starts on the image's upper left cell, in column `ox` of text
/// row `oy`. Afterwards every pixel of `img` is shown, every cell outside the
/// image's columns and text rows is as it was, and the cursor stands in the
/// image's last text row; unless the image reaches the last column, it
/// stands in the column behind the image.
pub proof fn lemma_diff_shows_image(
    s: Screen,
    prev: Frame,
    img: Frame,
    full_width: bool,
    ox: int,
    oy: int,
)
    requires
        diff_ready(s, prev, img, full_width, ox, oy),
        s.valid(),
        s.col == ox,
        s.row == oy,
    ensures
        ({
            let t = s.replay(diff_ops(prev, img, full_width));
            &&& t.shows(img, ox, oy)
            &&& forall|p: (int, int)|
                !(ox <= p.0 < ox + img.width && oy <= p.1 < oy + img.rows()) ==> #[trigger] t.cells[p]
                    == s.cells[p]
            &&& img.rows() > 0 ==> t.row == oy + img.rows() - 1
            &&& img.rows() > 0 && !full_width ==> t.col == ox + img.width
        }),
{
    if img.rows() == 0 {
        lemma_replay_empty(s);
        assert(s.shows(img, ox, oy));
    } else {
        let rows = img.rows() as int;
        lemma_replay_diff_rows(s, prev, img, full_width, ox, oy, rows);
        let st = diff_rows(prev, img, full_width, rows);
        let a = s.replay(st.ops);
        let horizontal = if full_width {
            Seq::<Op>::empty()
        } else {
            shift_ops(Dir::Right, img.width - st.col)
        };
        let vertical = shift_ops(Dir::Down, rows - 1 - st.row);
        lemma_replay_concat(s, st.ops, horizontal + vertical);
        lemma_replay_concat(a, horizontal, vertical);
        crate::image_to_ansi::lemma_diff_rows_bounds(prev, img, full_width, rows);
        if full_width {
            lemma_replay_empty(a);
        } else {
            lemma_replay_shift(a, Dir::Right, img.width - st.col);
        }
        let b = a.replay(horizontal);
        lemma_replay_shift(b, Dir::Down, rows - 1 - st.row);
        let t = b.replay(vertical);
        assert(t == s.replay(diff_ops(prev, img, full_width)));
        assert forall|x: int, r: int| 0 <= x < img.width && 0 <= r < img.rows() implies #[trigger] cell_shown(
            t,
            img,
            ox,
            oy,
            x,
            r,
        ) by {
            assert(cell_shown(a, img, ox, oy, x, r));
        }
        lemma_cells_shown(t, img, ox, oy);
        assert forall|p: (int, int)|
            !(ox <= p.0 < ox + img.width && oy <= p.1 < oy + img.rows()) implies #[trigger] t.cells[p]
            == s.cells[p] by {
            assert(!passed(img, ox, oy, rows, 0, p));
            assert(a.cells[p] == s.cells[p]);
        }
    }
}


} // verus!
