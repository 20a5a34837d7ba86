//! Rendering a framebuffer as escape sequences and half-block glyphs, either
//! in full or as the difference to the frame that the terminal shows.

use vstd::prelude::*;
use crate::ansi::{
    encode_all, lemma_encode_concat, lemma_encode_one, lemma_encode_three, lemma_encode_two,
    push_bg, push_fg, push_glyph, push_move, push_reset, push_shift, shift_ops, Dir, Glyph, Op,
};
use crate::color::Rgb;
use crate::image::{Frame, RgbImage};

verus! {

/// The colors that the renderer has recorded for the two color roles since
/// the start of the current run of cells. `None` is a role not recorded yet.
#[derive(Clone, Copy, Debug)]
pub struct Pen {
    pub fg: Option<Rgb>,
    pub bg: Option<Rgb>,
}

impl Pen {
    /// The state at the start of a run of cells, and so of every text row:
    /// nothing is carried over.
    pub open spec fn unknown() -> Pen {
        Pen { fg: None, bg: None }
    }
}

/// Units for a cell whose two pixels are `top` and `bottom`.
///
/// Equal pixels: a bare full block if both roles are recorded as that color,
/// else the foreground is set first. Different pixels: a bare half block if
/// the roles match directly or swapped; else only the role that differs is
/// set if the other one matches, the foreground role being looked at first;
/// else both are set, background first, and the lower half block is printed.
pub open spec fn full_cell_ops(pen: Pen, top: Rgb, bottom: Rgb) -> Seq<Op> {
    if top == bottom {
        if pen.fg == Some(top) && pen.bg == Some(top) {
            seq![Op::Put(Glyph::Full)]
        } else {
            seq![Op::Fg(top), Op::Put(Glyph::Full)]
        }
    } else if pen.fg == Some(bottom) && pen.bg == Some(top) {
        seq![Op::Put(Glyph::Lower)]
    } else if pen.fg == Some(top) && pen.bg == Some(bottom) {
        seq![Op::Put(Glyph::Upper)]
    } else if pen.fg == Some(bottom) {
        seq![Op::Bg(top), Op::Put(Glyph::Lower)]
    } else if pen.fg == Some(top) {
        seq![Op::Bg(bottom), Op::Put(Glyph::Upper)]
    } else if pen.bg == Some(top) {
        seq![Op::Fg(bottom), Op::Put(Glyph::Lower)]
    } else if pen.bg == Some(bottom) {
        seq![Op::Fg(top), Op::Put(Glyph::Upper)]
    } else {
        seq![Op::Bg(top), Op::Fg(bottom), Op::Put(Glyph::Lower)]
    }
}

/// The recorded roles after a cell with pixels `top` and `bottom`. After a
/// full block both roles are recorded as its color.
pub open spec fn full_cell_pen(pen: Pen, top: Rgb, bottom: Rgb) -> Pen {
    if top == bottom {
        Pen { fg: Some(top), bg: Some(top) }
    } else if pen.fg == Some(bottom) && pen.bg == Some(top) {
        pen
    } else if pen.fg == Some(top) && pen.bg == Some(bottom) {
        pen
    } else if pen.fg == Some(bottom) {
        Pen { fg: pen.fg, bg: Some(top) }
    } else if pen.fg == Some(top) {
        Pen { fg: pen.fg, bg: Some(bottom) }
    } else if pen.bg == Some(top) {
        Pen { fg: Some(bottom), bg: pen.bg }
    } else if pen.bg == Some(bottom) {
        Pen { fg: Some(top), bg: pen.bg }
    } else {
        Pen { fg: Some(bottom), bg: Some(top) }
    }
}

/// Units for a cell of a text row that holds a single pixel row: an upper
/// half block, with the foreground set first unless it is recorded as `color`.
pub open spec fn half_cell_ops(pen: Pen, color: Rgb) -> Seq<Op> {
    if pen.fg == Some(color) {
        seq![Op::Put(Glyph::Upper)]
    } else {
        seq![Op::Fg(color), Op::Put(Glyph::Upper)]
    }
}

/// The recorded roles after a cell of a text row that holds a single pixel
/// row: in such a row only the foreground is recorded.
pub open spec fn half_cell_pen(pen: Pen, color: Rgb) -> Pen {
    Pen { fg: Some(color), bg: None }
}

/// Units for the cell in column `x` of text row `row` of `img`.
pub open spec fn cell_ops(img: Frame, pen: Pen, x: int, row: int) -> Seq<Op> {
    if img.half_row(row) {
        half_cell_ops(pen, img.top(x, row))
    } else {
        full_cell_ops(pen, img.top(x, row), img.bottom(x, row))
    }
}

/// The recorded roles after the cell in column `x` of text row `row`.
pub open spec fn cell_pen(img: Frame, pen: Pen, x: int, row: int) -> Pen {
    if img.half_row(row) {
        half_cell_pen(pen, img.top(x, row))
    } else {
        full_cell_pen(pen, img.top(x, row), img.bottom(x, row))
    }
}

fn holds(role: Option<Rgb>, c: Rgb) -> (b: bool)
    ensures
        b == (role == Some(c)),
{
    match role {
        Some(r) => r == c,
        None => false,
    }
}

/// Writes one cell with pixels `top` and `bottom` and returns the roles
/// recorded afterwards.
pub fn paint_cell(out: &mut String, pen: Pen, top: Rgb, bottom: Rgb) -> (after: Pen)
    ensures
        final(out)@ == old(out)@ + encode_all(full_cell_ops(pen, top, bottom)),
        after == full_cell_pen(pen, top, bottom),
{
    if top == bottom {
        if holds(pen.fg, top) && holds(pen.bg, top) {
            push_glyph(out, Glyph::Full);
            proof {
                lemma_encode_one(Op::Put(Glyph::Full));
            }
        } else {
            push_fg(out, top);
            push_glyph(out, Glyph::Full);
            proof {
                lemma_encode_two(Op::Fg(top), Op::Put(Glyph::Full));
                assert(out@ =~= old(out)@ + (Op::Fg(top).encode() + Op::Put(
                    Glyph::Full,
                ).encode()));
            }
        }
        Pen { fg: Some(top), bg: Some(top) }
    } else if holds(pen.fg, bottom) && holds(pen.bg, top) {
        push_glyph(out, Glyph::Lower);
        proof {
            lemma_encode_one(Op::Put(Glyph::Lower));
        }
        pen
    } else if holds(pen.fg, top) && holds(pen.bg, bottom) {
        push_glyph(out, Glyph::Upper);
        proof {
            lemma_encode_one(Op::Put(Glyph::Upper));
        }
        pen
    } else if holds(pen.fg, bottom) {
        push_bg(out, top);
        push_glyph(out, Glyph::Lower);
        proof {
            lemma_encode_two(Op::Bg(top), Op::Put(Glyph::Lower));
            assert(out@ =~= old(out)@ + (Op::Bg(top).encode() + Op::Put(Glyph::Lower).encode()));
        }
        Pen { fg: pen.fg, bg: Some(top) }
    } else if holds(pen.fg, top) {
        push_bg(out, bottom);
        push_glyph(out, Glyph::Upper);
        proof {
            lemma_encode_two(Op::Bg(bottom), Op::Put(Glyph::Upper));
            assert(out@ =~= old(out)@ + (Op::Bg(bottom).encode() + Op::Put(
                Glyph::Upper,
            ).encode()));
        }
        Pen { fg: pen.fg, bg: Some(bottom) }
    } else if holds(pen.bg, top) {
        push_fg(out, bottom);
        push_glyph(out, Glyph::Lower);
        proof {
            lemma_encode_two(Op::Fg(bottom), Op::Put(Glyph::Lower));
            assert(out@ =~= old(out)@ + (Op::Fg(bottom).encode() + Op::Put(
                Glyph::Lower,
            ).encode()));
        }
        Pen { fg: Some(bottom), bg: pen.bg }
    } else if holds(pen.bg, bottom) {
        push_fg(out, top);
        push_glyph(out, Glyph::Upper);
        proof {
            lemma_encode_two(Op::Fg(top), Op::Put(Glyph::Upper));
            assert(out@ =~= old(out)@ + (Op::Fg(top).encode() + Op::Put(Glyph::Upper).encode()));
        }
        Pen { fg: Some(top), bg: pen.bg }
    } else {
        push_bg(out, top);
        push_fg(out, bottom);
        push_glyph(out, Glyph::Lower);
        proof {
            lemma_encode_three(Op::Bg(top), Op::Fg(bottom), Op::Put(Glyph::Lower));
            assert(out@ =~= old(out)@ + (Op::Bg(top).encode() + Op::Fg(bottom).encode() + Op::Put(
                Glyph::Lower,
            ).encode()));
        }
        Pen { fg: Some(bottom), bg: Some(top) }
    }
}

/// Writes one cell of a text row that holds a single pixel row and returns
/// the roles recorded afterwards.
pub fn paint_half_cell(out: &mut String, pen: Pen, color: Rgb) -> (after: Pen)
    ensures
        final(out)@ == old(out)@ + encode_all(half_cell_ops(pen, color)),
        after == half_cell_pen(pen, color),
{
    if holds(pen.fg, color) {
        push_glyph(out, Glyph::Upper);
        proof {
            lemma_encode_one(Op::Put(Glyph::Upper));
        }
    } else {
        push_fg(out, color);
        push_glyph(out, Glyph::Upper);
        proof {
            lemma_encode_two(Op::Fg(color), Op::Put(Glyph::Upper));
            assert(out@ =~= old(out)@ + (Op::Fg(color).encode() + Op::Put(
                Glyph::Upper,
            ).encode()));
        }
    }
    Pen { fg: Some(color), bg: None }
}

/// Units that take the cursor from column `curr_x` of text row `curr_y` to
/// column `x` of text row `y`: the horizontal move first, then the vertical.
pub open spec fn move_ops(curr_x: int, curr_y: int, x: int, y: int) -> Seq<Op> {
    (if x > curr_x {
        shift_ops(Dir::Right, x - curr_x)
    } else {
        shift_ops(Dir::Left, curr_x - x)
    }) + (if y > curr_y {
        shift_ops(Dir::Down, y - curr_y)
    } else {
        shift_ops(Dir::Up, curr_y - y)
    })
}

/// Appends the relative moves that take the cursor from column `curr_x` of
/// text row `curr_line_y` to column `x` of text row `line_y`.
pub fn move_cursor(curr_x: u32, curr_line_y: u32, x: u32, line_y: u32, lines: &mut String)
    ensures
        final(lines)@ == old(lines)@ + encode_all(
            move_ops(curr_x as int, curr_line_y as int, x as int, line_y as int),
        ),
{
    let ghost horizontal = if x > curr_x {
        shift_ops(Dir::Right, x - curr_x)
    } else {
        shift_ops(Dir::Left, curr_x - x)
    };
    let ghost vertical = if line_y > curr_line_y {
        shift_ops(Dir::Down, line_y - curr_line_y)
    } else {
        shift_ops(Dir::Up, curr_line_y - line_y)
    };
    if x > curr_x {
        push_shift(lines, Dir::Right, x - curr_x);
    } else {
        push_shift(lines, Dir::Left, curr_x - x);
    }
    if line_y > curr_line_y {
        push_shift(lines, Dir::Down, line_y - curr_line_y);
    } else {
        push_shift(lines, Dir::Up, curr_line_y - line_y);
    }
    proof {
        lemma_encode_concat(horizontal, vertical);
        assert(lines@ =~= old(lines)@ + (encode_all(horizontal) + encode_all(vertical)));
    }
}

/// What the differential renderer has written and recorded so far.
pub struct DiffState {
    /// The units written.
    pub ops: Seq<Op>,
    /// The column where the renderer takes the cursor to be.
    pub col: int,
    /// The text row where the renderer takes the cursor to be.
    pub row: int,
    /// The recorded color roles.
    pub pen: Pen,
}

/// The cell in column `x` of text row `row` differs between `prev` and `img`.
pub open spec fn changed(prev: Frame, img: Frame, x: int, row: int) -> bool {
    img.top(x, row) != prev.top(x, row) || (!img.half_row(row) && img.bottom(x, row)
        != prev.bottom(x, row))
}

/// The state after the cell in column `x` of text row `row`.
///
/// An unchanged cell produces nothing and ends the run of changed cells: the
/// recorded color roles are forgotten, so that the next changed cell sets
/// both of them. A changed cell gets a relative move from the recorded
/// cursor position and then its units. The cursor is recorded one column
/// further, except after the last column when `full_width` is set: there it
/// is taken to stay.
pub open spec fn diff_cell(
    prev: Frame,
    img: Frame,
    full_width: bool,
    x: int,
    row: int,
    s: DiffState,
) -> DiffState {
    if changed(prev, img, x, row) {
        DiffState {
            ops: s.ops + move_ops(s.col, s.row, x, row) + cell_ops(img, s.pen, x, row),
            col: if full_width && x + 1 == img.width {
                x
            } else {
                x + 1
            },
            row: row,
            pen: cell_pen(img, s.pen, x, row),
        }
    } else {
        DiffState { pen: Pen::unknown(), ..s }
    }
}

/// The state after the first `upto` cells of text row `row`, where `start`
/// is the state at the end of the row before. No color role is carried over
/// from one row to the next.
pub open spec fn diff_row(
    prev: Frame,
    img: Frame,
    full_width: bool,
    row: int,
    upto: int,
    start: DiffState,
) -> DiffState
    decreases upto,
{
    if upto <= 0 {
        DiffState { pen: Pen::unknown(), ..start }
    } else {
        diff_cell(prev, img, full_width, upto - 1, row, diff_row(prev, img, full_width, row, upto - 1, start))
    }
}

/// The state after the first `upto` text rows.
pub open spec fn diff_rows(prev: Frame, img: Frame, full_width: bool, upto: int) -> DiffState
    decreases upto,
{
    if upto <= 0 {
        DiffState { ops: Seq::empty(), col: 0, row: 0, pen: Pen::unknown() }
    } else {
        diff_row(prev, img, full_width, upto - 1, img.width as int, diff_rows(prev, img, full_width, upto - 1))
    }
}

/// The moves that end an update: to the column behind the image, unless
/// `full_width` is set, and to the last text row.
pub open spec fn trailing_ops(img: Frame, full_width: bool, s: DiffState) -> Seq<Op> {
    (if full_width {
        Seq::empty()
    } else {
        shift_ops(Dir::Right, img.width - s.col)
    }) + shift_ops(Dir::Down, img.rows() - 1 - s.row)
}

/// All units that turn a terminal showing `prev` into one showing `img`.
/// An image without rows gives no output at all.
pub open spec fn diff_ops(prev: Frame, img: Frame, full_width: bool) -> Seq<Op> {
    if img.rows() == 0 {
        Seq::empty()
    } else {
        let s = diff_rows(prev, img, full_width, img.rows() as int);
        s.ops + trailing_ops(img, full_width, s)
    }
}

/// The recorded cursor stays inside the image's columns and rows.
pub proof fn lemma_diff_row_bounds(
    prev: Frame,
    img: Frame,
    full_width: bool,
    row: int,
    upto: int,
    start: DiffState,
)
    requires
        0 <= start.col <= img.width,
        0 <= start.row <= row,
        0 <= upto <= img.width,
    ensures
        0 <= diff_row(prev, img, full_width, row, upto, start).col <= img.width,
        0 <= diff_row(prev, img, full_width, row, upto, start).row <= row,
    decreases upto,
{
    if upto > 0 {
        lemma_diff_row_bounds(prev, img, full_width, row, upto - 1, start);
    }
}

/// The recorded cursor stays inside the image's columns and above row `upto`.
pub proof fn lemma_diff_rows_bounds(prev: Frame, img: Frame, full_width: bool, upto: int)
    requires
        0 <= upto,
    ensures
        0 <= diff_rows(prev, img, full_width, upto).col <= img.width,
        0 <= diff_rows(prev, img, full_width, upto).row <= if upto == 0 {
            0
        } else {
            upto - 1
        },
    decreases upto,
{
    if upto > 0 {
        lemma_diff_rows_bounds(prev, img, full_width, upto - 1);
        lemma_diff_row_bounds(
            prev,
            img,
            full_width,
            upto - 1,
            img.width as int,
            diff_rows(prev, img, full_width, upto - 1),
        );
    }
}

/// Renders `image` as an update of a terminal that shows `prev_frame`, and
/// returns the text.
pub fn image_to_ansi(prev_frame: &RgbImage, image: &RgbImage, full_width: bool) -> (lines: String)
    requires
        prev_frame@.width >= image@.width,
        prev_frame@.height >= image@.height,
    ensures
        lines@ == encode_all(diff_ops(prev_frame@, image@, full_width)),
{
    let mut lines = String::new();
    image_to_ansi_into(prev_frame, image, full_width, &mut lines);
    lines
}

/// Renders `image` as an update of a terminal that shows `prev_frame`.
///
/// Whatever `lines` held is replaced. Cells whose pixels are the same in both
/// frames produce nothing, and the first changed cell after such a cell sets
/// both colors anew. `full_width` says that the image reaches the terminal's
/// last column, where the cursor does not advance.
pub fn image_to_ansi_into(
    prev_frame: &RgbImage,
    image: &RgbImage,
    full_width: bool,
    lines: &mut String,
)
    requires
        prev_frame@.width >= image@.width,
        prev_frame@.height >= image@.height,
    ensures
        final(lines)@ == encode_all(diff_ops(prev_frame@, image@, full_width)),
{
    let width = image.width();
    let height = image.height();
    let row_count: u32 = height / 2 + height % 2;
    let ghost prev = prev_frame@;
    let ghost img = image@;

    lines.clear();

    if row_count == 0 {
        return;
    }
    let mut curr_line_y: u32 = 0;
    let mut curr_x: u32 = 0;
    let mut line_y: u32 = 0;

    while line_y < row_count
        invariant
            img == image@,
            prev == prev_frame@,
            prev.width >= img.width,
            prev.height >= img.height,
            width == img.width,
            height == img.height,
            row_count == img.rows(),
            line_y <= row_count,
            lines@ == encode_all(diff_rows(prev, img, full_width, line_y as int).ops),
            curr_x == diff_rows(prev, img, full_width, line_y as int).col,
            curr_line_y == diff_rows(prev, img, full_width, line_y as int).row,
            curr_x <= width,
            curr_line_y <= line_y,
            line_y > 0 ==> curr_line_y < line_y,
        decreases row_count - line_y,
    {
        let y: u32 = line_y * 2;
        let half = y + 1 == height;
        let mut pen = Pen { fg: None, bg: None };
        let mut x: u32 = 0;
        let ghost start = diff_rows(prev, img, full_width, line_y as int);

        while x < width
            invariant
                img == image@,
                prev == prev_frame@,
                prev.width >= img.width,
                prev.height >= img.height,
                width == img.width,
                height == img.height,
                row_count == img.rows(),
                line_y < row_count,
                y == line_y * 2,
                half == img.half_row(line_y as int),
                x <= width,
                lines@ == encode_all(diff_row(prev, img, full_width, line_y as int, x as int, start).ops),
                curr_x == diff_row(prev, img, full_width, line_y as int, x as int, start).col,
                curr_line_y == diff_row(prev, img, full_width, line_y as int, x as int, start).row,
                pen == diff_row(prev, img, full_width, line_y as int, x as int, start).pen,
                curr_x <= width,
                curr_line_y <= line_y,
            decreases width - x,
        {
            let ghost before = diff_row(prev, img, full_width, line_y as int, x as int, start);
            let top = image.get_pixel(x, y);
            if half {
                if top != prev_frame.get_pixel(x, y) {
                    move_cursor(curr_x, curr_line_y, x, line_y, lines);
                    pen = paint_half_cell(lines, pen, top);
                    if full_width && x + 1 == width {
                        curr_x = x;
                    } else {
                        curr_x = x + 1;
                    }
                    curr_line_y = line_y;
                    proof {
                        let mv = move_ops(before.col, before.row, x as int, line_y as int);
                        let cell = cell_ops(img, before.pen, x as int, line_y as int);
                        lemma_encode_concat(before.ops, mv);
                        lemma_encode_concat(before.ops + mv, cell);
                        assert(lines@ =~= encode_all(before.ops + mv + cell));
                    }
                } else {
                    pen = Pen { fg: None, bg: None };
                }
            } else {
                let bottom = image.get_pixel(x, y + 1);
                if top != prev_frame.get_pixel(x, y) || bottom != prev_frame.get_pixel(x, y + 1) {
                    move_cursor(curr_x, curr_line_y, x, line_y, lines);
                    pen = paint_cell(lines, pen, top, bottom);
                    if full_width && x + 1 == width {
                        curr_x = x;
                    } else {
                        curr_x = x + 1;
                    }
                    curr_line_y = line_y;
                    proof {
                        let mv = move_ops(before.col, before.row, x as int, line_y as int);
                        let cell = cell_ops(img, before.pen, x as int, line_y as int);
                        lemma_encode_concat(before.ops, mv);
                        lemma_encode_concat(before.ops + mv, cell);
                        assert(lines@ =~= encode_all(before.ops + mv + cell));
                    }
                } else {
                    pen = Pen { fg: None, bg: None };
                }
            }
            x += 1;
        }
        line_y += 1;
    }

    let ghost done = diff_rows(prev, img, full_width, row_count as int);
    let ghost horizontal = if full_width {
        Seq::<Op>::empty()
    } else {
        shift_ops(Dir::Right, img.width - done.col)
    };
    let ghost vertical = shift_ops(Dir::Down, img.rows() - 1 - done.row);
    if !full_width {
        push_shift(lines, Dir::Right, width - curr_x);
    }
    push_shift(lines, Dir::Down, row_count - 1 - curr_line_y);
    proof {
        if full_width {
            assert(encode_all(horizontal) =~= Seq::<char>::empty());
        }
        lemma_encode_concat(horizontal, vertical);
        lemma_encode_concat(done.ops, horizontal + vertical);
        assert(lines@ =~= encode_all(done.ops) + (encode_all(horizontal) + encode_all(vertical)));
    }
}


/// What the full renderer has written in the current text row, and the color
/// roles it has recorded.
pub struct RowState {
    pub ops: Seq<Op>,
    pub pen: Pen,
}

/// The first `upto` cells of text row `row`, written one after the other.
/// The row starts with no color role recorded.
pub open spec fn redraw_row(img: Frame, row: int, upto: int) -> RowState
    decreases upto,
{
    if upto <= 0 {
        RowState { ops: Seq::empty(), pen: Pen::unknown() }
    } else {
        let s = redraw_row(img, row, upto - 1);
        RowState {
            ops: s.ops + cell_ops(img, s.pen, upto - 1, row),
            pen: cell_pen(img, s.pen, upto - 1, row),
        }
    }
}

/// The move from the end of one text row to the start of the next: left by
/// the image's width and down by one, both in the parameterized form.
pub open spec fn next_row_ops(img: Frame) -> Seq<Op> {
    seq![Op::Move(Dir::Left, img.width), Op::Move(Dir::Down, 1)]
}

/// The first `upto` text rows, each but the first after a move to its start.
pub open spec fn redraw_rows(img: Frame, upto: int) -> Seq<Op>
    decreases upto,
{
    if upto <= 0 {
        Seq::empty()
    } else {
        redraw_rows(img, upto - 1) + (if upto - 1 > 0 {
            next_row_ops(img)
        } else {
            Seq::empty()
        }) + redraw_row(img, upto - 1, img.width as int).ops
    }
}

/// All units of a full redraw: every cell of every text row, then a reset of
/// the attributes. An image without rows gives no output at all.
pub open spec fn redraw_ops(img: Frame) -> Seq<Op> {
    if img.rows() == 0 {
        Seq::empty()
    } else {
        redraw_rows(img, img.rows() as int).push(Op::Reset)
    }
}

/// Renders every cell of `image`, whatever the terminal shows.
///
/// Whatever `lines` held is replaced.
pub fn simple_image_to_ansi_into(image: &RgbImage, lines: &mut String)
    ensures
        final(lines)@ == encode_all(redraw_ops(image@)),
{
    let width = image.width();
    let height = image.height();
    let row_count: u32 = height / 2 + height % 2;
    let ghost img = image@;

    lines.clear();

    if row_count == 0 {
        return;
    }
    let mut line_y: u32 = 0;

    while line_y < row_count
        invariant
            img == image@,
            width == img.width,
            height == img.height,
            row_count == img.rows(),
            line_y <= row_count,
            lines@ == encode_all(redraw_rows(img, line_y as int)),
        decreases row_count - line_y,
    {
        let ghost done = redraw_rows(img, line_y as int);
        let ghost sep = if line_y > 0 {
            next_row_ops(img)
        } else {
            Seq::<Op>::empty()
        };
        if line_y > 0 {
            push_move(lines, Dir::Left, width);
            push_move(lines, Dir::Down, 1);
            proof {
                lemma_encode_two(Op::Move(Dir::Left, img.width), Op::Move(Dir::Down, 1));
                assert(lines@ =~= encode_all(done) + (Op::Move(Dir::Left, img.width).encode()
                    + Op::Move(Dir::Down, 1).encode()));
            }
        }
        proof {
            lemma_encode_concat(done, sep);
            assert(done + sep + Seq::<Op>::empty() =~= done + sep);
            if line_y == 0 {
                assert(encode_all(sep) =~= Seq::<char>::empty());
                assert(lines@ =~= encode_all(done) + encode_all(sep));
            }
        }
        let y: u32 = line_y * 2;
        let half = y + 1 == height;
        let mut pen = Pen { fg: None, bg: None };
        let mut x: u32 = 0;

        while x < width
            invariant
                img == image@,
                width == img.width,
                height == img.height,
                row_count == img.rows(),
                line_y < row_count,
                y == line_y * 2,
                half == img.half_row(line_y as int),
                x <= width,
                lines@ == encode_all(done + sep + redraw_row(img, line_y as int, x as int).ops),
                pen == redraw_row(img, line_y as int, x as int).pen,
            decreases width - x,
        {
            let ghost before = redraw_row(img, line_y as int, x as int);
            let ghost cell = cell_ops(img, before.pen, x as int, line_y as int);
            let top = image.get_pixel(x, y);
            if half {
                pen = paint_half_cell(lines, pen, top);
            } else {
                let bottom = image.get_pixel(x, y + 1);
                pen = paint_cell(lines, pen, top, bottom);
            }
            proof {
                lemma_encode_concat(done + sep + before.ops, cell);
                assert(done + sep + (before.ops + cell) =~= done + sep + before.ops + cell);
            }
            x += 1;
        }
        line_y += 1;
    }

    push_reset(lines);
    proof {
        crate::ansi::lemma_encode_push(redraw_rows(img, row_count as int), Op::Reset);
    }
}


/// A text row without a changed cell adds nothing to the output.
pub proof fn lemma_diff_row_unchanged(
    prev: Frame,
    img: Frame,
    full_width: bool,
    row: int,
    upto: int,
    start: DiffState,
)
    requires
        forall|x: int| 0 <= x < upto ==> !#[trigger] changed(prev, img, x, row),
    ensures
        diff_row(prev, img, full_width, row, upto, start) == (DiffState {
            pen: Pen::unknown(),
            ..start
        }),
    decreases upto,
{
    if upto > 0 {
        lemma_diff_row_unchanged(prev, img, full_width, row, upto - 1, start);
        assert(!changed(prev, img, upto - 1, row));
    }
}

/// Text rows without a changed cell add nothing to the output.
pub proof fn lemma_diff_rows_unchanged(prev: Frame, img: Frame, full_width: bool, upto: int)
    requires
        forall|x: int, row: int|
            0 <= x < img.width && 0 <= row < upto ==> !#[trigger] changed(prev, img, x, row),
    ensures
        diff_rows(prev, img, full_width, upto) == (DiffState {
            ops: Seq::empty(),
            col: 0,
            row: 0,
            pen: Pen::unknown(),
        }),
    decreases upto,
{
    if upto > 0 {
        lemma_diff_rows_unchanged(prev, img, full_width, upto - 1);
        lemma_diff_row_unchanged(
            prev,
            img,
            full_width,
            upto - 1,
            img.width as int,
            diff_rows(prev, img, full_width, upto - 1),
        );
    }
}

/// An update in which no cell changed consists of the closing moves alone:
/// no color is set, no glyph is printed and no cell is moved to.
pub proof fn lemma_diff_without_change(prev: Frame, img: Frame, full_width: bool)
    requires
        forall|x: int, row: int|
            0 <= x < img.width && 0 <= row < img.rows() ==> !#[trigger] changed(prev, img, x, row),
    ensures
        diff_ops(prev, img, full_width) == if img.rows() == 0 {
            Seq::<Op>::empty()
        } else {
            (if full_width {
                Seq::<Op>::empty()
            } else {
                shift_ops(Dir::Right, img.width as int)
            }) + shift_ops(Dir::Down, img.rows() - 1)
        },
{
    if img.rows() > 0 {
        lemma_diff_rows_unchanged(prev, img, full_width, img.rows() as int);
        let s = diff_rows(prev, img, full_width, img.rows() as int);
        assert(s.ops + trailing_ops(img, full_width, s) =~= trailing_ops(img, full_width, s));
    }
}

/// Rendering a frame as an update of itself gives the closing moves alone.
pub proof fn lemma_diff_of_same_frame(frame: Frame, full_width: bool)
    ensures
        diff_ops(frame, frame, full_width) == if frame.rows() == 0 {
            Seq::<Op>::empty()
        } else {
            (if full_width {
                Seq::<Op>::empty()
            } else {
                shift_ops(Dir::Right, frame.width as int)
            }) + shift_ops(Dir::Down, frame.rows() - 1)
        },
{
    lemma_diff_without_change(frame, frame, full_width);
}

/// With no color role recorded, a cell of two different pixels sets both
/// colors, and a cell of two equal pixels the foreground.
pub proof fn lemma_run_start_sets_colors(top: Rgb, bottom: Rgb)
    ensures
        full_cell_ops(Pen::unknown(), top, bottom) == if top == bottom {
            seq![Op::Fg(top), Op::Put(Glyph::Full)]
        } else {
            seq![Op::Bg(top), Op::Fg(bottom), Op::Put(Glyph::Lower)]
        },
        half_cell_ops(Pen::unknown(), top) == seq![Op::Fg(top), Op::Put(Glyph::Upper)],
{
}

/// The first changed cell after an unchanged one starts a run: it is
/// written after the move to it, with no color role carried over.
pub proof fn lemma_diff_run_start(
    prev: Frame,
    img: Frame,
    full_width: bool,
    row: int,
    x: int,
    start: DiffState,
)
    requires
        0 <= x,
        !changed(prev, img, x, row),
        changed(prev, img, x + 1, row),
    ensures
        ({
            let before = diff_row(prev, img, full_width, row, x + 1, start);
            let after = diff_row(prev, img, full_width, row, x + 2, start);
            after.ops == before.ops + move_ops(before.col, before.row, x + 1, row) + cell_ops(
                img,
                Pen::unknown(),
                x + 1,
                row,
            )
        }),
{
    let earlier = diff_row(prev, img, full_width, row, x, start);
    let before = diff_row(prev, img, full_width, row, x + 1, start);
    assert(before == diff_cell(prev, img, full_width, x, row, earlier));
    assert(before.pen == Pen::unknown());
}

/// The glyph that shows pixels `top` and `bottom` with the roles recorded
/// in `pen`, where these are the two pixels' colors.
pub open spec fn bare_glyph(pen: Pen, top: Rgb, bottom: Rgb) -> Glyph {
    if top == bottom {
        Glyph::Full
    } else if pen.fg == Some(bottom) {
        Glyph::Lower
    } else {
        Glyph::Upper
    }
}

/// After a cell with pixels `top` and `bottom`, a cell with the same two
/// colors, in the same or in swapped places, is written as a glyph alone.
pub proof fn lemma_same_colors_reuse(pen: Pen, top: Rgb, bottom: Rgb)
    ensures
        ({
            let after = full_cell_pen(pen, top, bottom);
            &&& full_cell_ops(after, top, bottom) == seq![Op::Put(bare_glyph(after, top, bottom))]
            &&& full_cell_ops(after, bottom, top) == seq![Op::Put(bare_glyph(after, bottom, top))]
        }),
{
}

/// After a cell of a single pixel, a cell of the same color is written as a
/// glyph alone.
pub proof fn lemma_same_color_reuse(pen: Pen, color: Rgb)
    ensures
        half_cell_ops(half_cell_pen(pen, color), color) == seq![Op::Put(Glyph::Upper)],
{
}

/// The glyph that shows the cell in column `x` of text row `row` with the
/// roles recorded in `pen`, where these are the cell's colors.
pub open spec fn reused_glyph(img: Frame, pen: Pen, x: int, row: int) -> Glyph {
    if img.half_row(row) {
        Glyph::Upper
    } else {
        bare_glyph(pen, img.top(x, row), img.bottom(x, row))
    }
}

/// The cells in columns `x` and `x + 1` of text row `row` use the same
/// colors, in the same or in swapped places.
pub open spec fn same_colors(img: Frame, x: int, row: int) -> bool {
    if img.half_row(row) {
        img.top(x + 1, row) == img.top(x, row)
    } else {
        ||| img.top(x + 1, row) == img.top(x, row) && img.bottom(x + 1, row) == img.bottom(x, row)
        ||| img.top(x + 1, row) == img.bottom(x, row) && img.bottom(x + 1, row) == img.top(x, row)
    }
}

/// Of two changed cells side by side that use the same colors, the second is
/// written as a glyph alone: no move and no color comes between them.
pub proof fn lemma_diff_neighbours_reuse(
    prev: Frame,
    img: Frame,
    full_width: bool,
    row: int,
    x: int,
    start: DiffState,
)
    requires
        0 <= x,
        x + 1 < img.width,
        changed(prev, img, x, row),
        changed(prev, img, x + 1, row),
        same_colors(img, x, row),
    ensures
        ({
            let first = diff_row(prev, img, full_width, row, x + 1, start);
            let second = diff_row(prev, img, full_width, row, x + 2, start);
            second.ops == first.ops.push(Op::Put(reused_glyph(img, first.pen, x + 1, row)))
        }),
{
    let before = diff_row(prev, img, full_width, row, x, start);
    let first = diff_row(prev, img, full_width, row, x + 1, start);
    let second = diff_row(prev, img, full_width, row, x + 2, start);
    assert(first == diff_cell(prev, img, full_width, x, row, before));
    assert(second == diff_cell(prev, img, full_width, x + 1, row, first));
    assert(move_ops(first.col, first.row, x + 1, row) =~= Seq::<Op>::empty());
    let cell = cell_ops(img, first.pen, x + 1, row);
    assert(first.ops + Seq::<Op>::empty() + cell =~= first.ops + cell);
    if img.half_row(row) {
        lemma_same_color_reuse(before.pen, img.top(x, row));
        assert(first.ops + cell =~= first.ops.push(Op::Put(Glyph::Upper)));
    } else {
        lemma_same_colors_reuse(before.pen, img.top(x, row), img.bottom(x, row));
        let g = bare_glyph(first.pen, img.top(x + 1, row), img.bottom(x + 1, row));
        assert(cell == seq![Op::Put(g)]);
        assert(first.ops + cell =~= first.ops.push(Op::Put(g)));
    }
}

/// In a full redraw, of two cells side by side that use the same colors, the
/// second is written as a glyph alone.
pub proof fn lemma_redraw_neighbours_reuse(img: Frame, row: int, x: int)
    requires
        0 <= x,
        same_colors(img, x, row),
    ensures
        ({
            let first = redraw_row(img, row, x + 1);
            let second = redraw_row(img, row, x + 2);
            second.ops == first.ops.push(Op::Put(reused_glyph(img, first.pen, x + 1, row)))
        }),
{
    let before = redraw_row(img, row, x);
    let first = redraw_row(img, row, x + 1);
    let second = redraw_row(img, row, x + 2);
    assert(first.pen == cell_pen(img, before.pen, x, row));
    let cell = cell_ops(img, first.pen, x + 1, row);
    assert(second.ops == first.ops + cell);
    if img.half_row(row) {
        lemma_same_color_reuse(before.pen, img.top(x, row));
        assert(first.ops + cell =~= first.ops.push(Op::Put(Glyph::Upper)));
    } else {
        lemma_same_colors_reuse(before.pen, img.top(x, row), img.bottom(x, row));
        let g = bare_glyph(first.pen, img.top(x + 1, row), img.bottom(x + 1, row));
        assert(cell == seq![Op::Put(g)]);
        assert(first.ops + cell =~= first.ops.push(Op::Put(g)));
    }
}


} // verus!
