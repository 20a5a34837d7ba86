use color_cycle::ansi::{push_bg, push_fg, push_glyph, push_move, push_reset, push_shift, push_step, Dir, Glyph};
use color_cycle::color::Rgb;
use color_cycle::image::RgbImage;
use color_cycle::image_to_ansi::{
    image_to_ansi, image_to_ansi_into, move_cursor, paint_cell, paint_half_cell,
    simple_image_to_ansi_into, Pen,
};
use color_cycle::text::push_decimal;

fn image(width: u32, height: u32, pixels: &[(u8, u8, u8)]) -> RgbImage {
    let mut img = RgbImage::new(width, height);
    for y in 0..height {
        for x in 0..width {
            let (r, g, b) = pixels[(y * width + x) as usize];
            img.put_pixel(x, y, Rgb::new(r, g, b));
        }
    }
    img
}

/// A small terminal: a grid of cells with two halves each, a cursor that
/// stops at the edges, and two current colors.
struct Term {
    cols: usize,
    lines: usize,
    cells: Vec<((u8, u8, u8), (u8, u8, u8))>,
    col: usize,
    row: usize,
    fg: (u8, u8, u8),
    bg: (u8, u8, u8),
}

fn term(cols: usize, lines: usize, col: usize, row: usize) -> Term {
    Term {
        cols,
        lines,
        cells: vec![((9, 9, 9), (9, 9, 9)); cols * lines],
        col,
        row,
        fg: (200, 200, 200),
        bg: (100, 100, 100),
    }
}

fn feed(t: &mut Term, text: &str) {
    let chars: Vec<char> = text.chars().collect();
    let mut i = 0;
    while i < chars.len() {
        let c = chars[i];
        if c == '\x1B' {
            assert_eq!(chars[i + 1], '[');
            i += 2;
            let mut params: Vec<usize> = Vec::new();
            let mut current: Option<usize> = None;
            while chars[i].is_ascii_digit() || chars[i] == ';' {
                if chars[i] == ';' {
                    params.push(current.unwrap_or(0));
                    current = None;
                } else {
                    current = Some(current.unwrap_or(0) * 10 + chars[i].to_digit(10).unwrap() as usize);
                }
                i += 1;
            }
            if let Some(v) = current {
                params.push(v);
            }
            let n = if params.is_empty() || params[0] == 0 { 1 } else { params[0] };
            match chars[i] {
                'A' => t.row = t.row.saturating_sub(n),
                'B' => t.row = (t.row + n).min(t.lines - 1),
                'C' => t.col = (t.col + n).min(t.cols - 1),
                'D' => t.col = t.col.saturating_sub(n),
                'm' => {
                    if params.len() == 5 && params[0] == 38 {
                        t.fg = (params[2] as u8, params[3] as u8, params[4] as u8);
                    } else if params.len() == 5 && params[0] == 48 {
                        t.bg = (params[2] as u8, params[3] as u8, params[4] as u8);
                    } else {
                        assert_eq!(params, vec![0]);
                        t.fg = (200, 200, 200);
                        t.bg = (100, 100, 100);
                    }
                }
                other => panic!("unknown sequence end {:?}", other),
            }
            i += 1;
        } else {
            let cell = match c {
                '▀' => (t.fg, t.bg),
                '▄' => (t.bg, t.fg),
                '█' => (t.fg, t.fg),
                other => panic!("unknown glyph {:?}", other),
            };
            let at = t.row * t.cols + t.col;
            t.cells[at] = cell;
            if t.col + 1 < t.cols {
                t.col += 1;
            }
            i += 1;
        }
    }
}

fn shows(t: &Term, img: &RgbImage, ox: usize, oy: usize) -> bool {
    for y in 0..img.height() {
        for x in 0..img.width() {
            let cell = t.cells[(oy + (y / 2) as usize) * t.cols + ox + x as usize];
            let got = if y % 2 == 0 { cell.0 } else { cell.1 };
            let want = img.get_pixel(x, y);
            if got != (want.r, want.g, want.b) {
                return false;
            }
        }
    }
    true
}

fn show(t: &mut Term, img: &RgbImage, ox: usize, oy: usize) {
    for y in 0..img.height() {
        for x in 0..img.width() {
            let p = img.get_pixel(x, y);
            let at = (oy + (y / 2) as usize) * t.cols + ox + x as usize;
            if y % 2 == 0 {
                t.cells[at].0 = (p.r, p.g, p.b);
            } else {
                t.cells[at].1 = (p.r, p.g, p.b);
            }
        }
    }
}

const A: (u8, u8, u8) = (1, 2, 3);
const B: (u8, u8, u8) = (10, 20, 30);
const C: (u8, u8, u8) = (40, 50, 60);
const D: (u8, u8, u8) = (70, 80, 255);
const K: (u8, u8, u8) = (0, 0, 0);

#[test]
fn decimal_numbers() {
    let mut out = String::from("x");
    push_decimal(&mut out, 0);
    out.push(' ');
    push_decimal(&mut out, 7);
    out.push(' ');
    push_decimal(&mut out, 10);
    out.push(' ');
    push_decimal(&mut out, 255);
    out.push(' ');
    push_decimal(&mut out, 18_446_744_073_709_551_615);
    assert_eq!(out, "x0 7 10 255 18446744073709551615");
}

#[test]
fn escape_sequences() {
    let mut out = String::new();
    push_fg(&mut out, Rgb::new(1, 20, 255));
    push_bg(&mut out, Rgb::new(0, 9, 100));
    push_glyph(&mut out, Glyph::Upper);
    push_glyph(&mut out, Glyph::Lower);
    push_glyph(&mut out, Glyph::Full);
    push_step(&mut out, Dir::Up);
    push_step(&mut out, Dir::Down);
    push_step(&mut out, Dir::Right);
    push_step(&mut out, Dir::Left);
    push_move(&mut out, Dir::Up, 2);
    push_move(&mut out, Dir::Down, 1);
    push_move(&mut out, Dir::Right, 30);
    push_move(&mut out, Dir::Left, 0);
    push_reset(&mut out);
    assert_eq!(
        out,
        "\x1B[38;2;1;20;255m\x1B[48;2;0;9;100m▀▄█\x1B[A\x1B[B\x1B[C\x1B[D\x1B[2A\x1B[1B\x1B[30C\x1B[0D\x1B[0m"
    );
}

#[test]
fn shifts_use_the_short_form_for_one_cell() {
    let mut out = String::new();
    push_shift(&mut out, Dir::Right, 0);
    assert_eq!(out, "");
    push_shift(&mut out, Dir::Right, 1);
    push_shift(&mut out, Dir::Left, 2);
    assert_eq!(out, "\x1B[C\x1B[2D");
}

#[test]
fn move_cursor_in_every_direction() {
    let mut out = String::from("keep");
    move_cursor(3, 4, 3, 4, &mut out);
    assert_eq!(out, "keep");
    move_cursor(3, 4, 4, 4, &mut out);
    move_cursor(3, 4, 2, 4, &mut out);
    move_cursor(3, 4, 3, 5, &mut out);
    move_cursor(3, 4, 3, 3, &mut out);
    assert_eq!(out, "keep\x1B[C\x1B[D\x1B[B\x1B[A");
    let mut out = String::new();
    move_cursor(0, 0, 12, 7, &mut out);
    move_cursor(12, 7, 2, 5, &mut out);
    assert_eq!(out, "\x1B[12C\x1B[7B\x1B[10D\x1B[2A");
}

#[test]
fn cell_rules() {
    let a = Rgb::new(1, 2, 3);
    let b = Rgb::new(10, 20, 30);
    let c = Rgb::new(40, 50, 60);
    let d = Rgb::new(70, 80, 255);
    let unknown = Pen { fg: None, bg: None };

    // nothing recorded: both colors are set, background first
    let mut out = String::new();
    let pen = paint_cell(&mut out, unknown, a, b);
    assert_eq!(out, "\x1B[48;2;1;2;3m\x1B[38;2;10;20;30m▄");
    assert_eq!((pen.fg, pen.bg), (Some(b), Some(a)));

    // same roles: a glyph alone
    let mut out = String::new();
    let pen2 = paint_cell(&mut out, pen, a, b);
    assert_eq!(out, "▄");
    assert_eq!((pen2.fg, pen2.bg), (Some(b), Some(a)));

    // swapped roles: the other glyph alone
    let mut out = String::new();
    paint_cell(&mut out, pen, b, a);
    assert_eq!(out, "▀");

    // foreground matches the lower pixel: only the background is set
    let mut out = String::new();
    let pen3 = paint_cell(&mut out, pen, c, b);
    assert_eq!(out, "\x1B[48;2;40;50;60m▄");
    assert_eq!((pen3.fg, pen3.bg), (Some(b), Some(c)));

    // foreground matches the upper pixel
    let mut out = String::new();
    let pen4 = paint_cell(&mut out, pen, b, c);
    assert_eq!(out, "\x1B[48;2;40;50;60m▀");
    assert_eq!((pen4.fg, pen4.bg), (Some(b), Some(c)));

    // background matches the upper pixel: only the foreground is set
    let mut out = String::new();
    let pen5 = paint_cell(&mut out, pen, a, c);
    assert_eq!(out, "\x1B[38;2;40;50;60m▄");
    assert_eq!((pen5.fg, pen5.bg), (Some(c), Some(a)));

    // background matches the lower pixel
    let mut out = String::new();
    let pen6 = paint_cell(&mut out, pen, c, a);
    assert_eq!(out, "\x1B[38;2;40;50;60m▀");
    assert_eq!((pen6.fg, pen6.bg), (Some(c), Some(a)));

    // nothing matches
    let mut out = String::new();
    paint_cell(&mut out, pen, c, d);
    assert_eq!(out, "\x1B[48;2;40;50;60m\x1B[38;2;70;80;255m▄");

    // equal pixels: the foreground is set, and both roles are recorded
    let mut out = String::new();
    let pen7 = paint_cell(&mut out, pen, c, c);
    assert_eq!(out, "\x1B[38;2;40;50;60m█");
    assert_eq!((pen7.fg, pen7.bg), (Some(c), Some(c)));

    // equal pixels again: a full block alone
    let mut out = String::new();
    paint_cell(&mut out, pen7, c, c);
    assert_eq!(out, "█");

    // after a full block only the foreground counts
    let mut out = String::new();
    paint_cell(&mut out, pen7, c, d);
    assert_eq!(out, "\x1B[48;2;70;80;255m▀");
}

#[test]
fn half_cell_rules() {
    let a = Rgb::new(1, 2, 3);
    let b = Rgb::new(10, 20, 30);
    let mut out = String::new();
    let pen = paint_half_cell(&mut out, Pen { fg: None, bg: None }, a);
    assert_eq!(out, "\x1B[38;2;1;2;3m▀");
    assert_eq!((pen.fg, pen.bg), (Some(a), None));
    let pen = paint_half_cell(&mut out, pen, a);
    let pen = paint_half_cell(&mut out, pen, b);
    assert_eq!(out, "\x1B[38;2;1;2;3m▀▀\x1B[38;2;10;20;30m▀");
    assert_eq!(pen.fg, Some(b));
}

#[test]
fn full_redraw_of_two_by_two() {
    let img = image(2, 2, &[A, B, A, C]);
    let mut out = String::from("stale");
    simple_image_to_ansi_into(&img, &mut out);
    assert_eq!(out, "\x1B[38;2;1;2;3m█\x1B[48;2;10;20;30m\x1B[38;2;40;50;60m▄\x1B[0m");
}

#[test]
fn first_frame_of_two_by_two_against_a_blank_terminal() {
    let img = image(2, 2, &[A, B, A, C]);
    let blank = RgbImage::new(2, 2);
    let out = image_to_ansi(&blank, &img, false);
    assert_eq!(out, "\x1B[38;2;1;2;3m█\x1B[48;2;10;20;30m\x1B[38;2;40;50;60m▄");
    let img = image(2, 2, &[A, C, B, D]);
    let out = image_to_ansi(&blank, &img, false);
    assert_eq!(
        out,
        "\x1B[48;2;1;2;3m\x1B[38;2;10;20;30m▄\x1B[48;2;40;50;60m\x1B[38;2;70;80;255m▄"
    );
}

#[test]
fn full_redraw_moves_to_the_next_row() {
    let img = image(1, 3, &[A, B, C]);
    let mut out = String::new();
    simple_image_to_ansi_into(&img, &mut out);
    assert_eq!(
        out,
        "\x1B[48;2;1;2;3m\x1B[38;2;10;20;30m▄\x1B[1D\x1B[1B\x1B[38;2;40;50;60m▀\x1B[0m"
    );
}

#[test]
fn images_without_rows_give_no_output() {
    let img = RgbImage::new(5, 0);
    let mut out = String::from("stale");
    simple_image_to_ansi_into(&img, &mut out);
    assert_eq!(out, "");
    let mut out = String::from("stale");
    image_to_ansi_into(&RgbImage::new(5, 3), &img, false, &mut out);
    assert_eq!(out, "");
}

#[test]
fn images_without_columns() {
    let img = RgbImage::new(0, 4);
    let mut out = String::new();
    simple_image_to_ansi_into(&img, &mut out);
    assert_eq!(out, "\x1B[0D\x1B[1B\x1B[0m");
    assert_eq!(image_to_ansi(&img, &img, false), "\x1B[B");
}

#[test]
fn diff_of_identical_frames_is_trailing_only() {
    let img = RgbImage::new(3, 4);
    let prev = RgbImage::new(3, 4);
    assert_eq!(image_to_ansi(&prev, &img, false), "\x1B[3C\x1B[B");
    assert_eq!(image_to_ansi(&prev, &img, true), "\x1B[B");
    let img = image(2, 5, &[A, B, C, D, A, A, B, B, C, D]);
    assert_eq!(image_to_ansi(&img, &img, false), "\x1B[2C\x1B[2B");
    let one = image(1, 1, &[A]);
    assert_eq!(image_to_ansi(&one, &one, false), "\x1B[C");
    assert_eq!(image_to_ansi(&one, &one, true), "");
}

#[test]
fn diff_skips_unchanged_cells() {
    let prev = image(4, 2, &[A, A, A, A, A, A, A, A]);
    let img = image(4, 2, &[A, A, A, B, A, A, A, C]);
    // only the last cell changed: one move, the cell, and the closing move
    assert_eq!(
        image_to_ansi(&prev, &img, false),
        "\x1B[3C\x1B[48;2;10;20;30m\x1B[38;2;40;50;60m▄"
    );
    // with the image reaching the last column the cursor is taken to stay
    assert_eq!(
        image_to_ansi(&prev, &img, true),
        "\x1B[3C\x1B[48;2;10;20;30m\x1B[38;2;40;50;60m▄"
    );
    let img = image(4, 2, &[A, B, A, A, A, B, A, A]);
    assert_eq!(image_to_ansi(&prev, &img, false), "\x1B[C\x1B[38;2;10;20;30m█\x1B[2C");
    assert_eq!(image_to_ansi(&prev, &img, true), "\x1B[C\x1B[38;2;10;20;30m█");
}

#[test]
fn diff_moves_between_rows() {
    let prev = RgbImage::new(3, 6);
    let mut img = RgbImage::new(3, 6);
    img.put_pixel(2, 0, Rgb::new(1, 2, 3));
    img.put_pixel(0, 5, Rgb::new(10, 20, 30));
    // cell (2, 0), then from column 3 of row 0 to column 0 of row 2
    assert_eq!(
        image_to_ansi(&prev, &img, false),
        "\x1B[2C\x1B[48;2;1;2;3m\x1B[38;2;0;0;0m▄\x1B[3D\x1B[2B\x1B[48;2;0;0;0m\x1B[38;2;10;20;30m▄\x1B[2C"
    );
    // at full width the cursor stays in column 2 after the first cell
    assert_eq!(
        image_to_ansi(&prev, &img, true),
        "\x1B[2C\x1B[48;2;1;2;3m\x1B[38;2;0;0;0m▄\x1B[2D\x1B[2B\x1B[48;2;0;0;0m\x1B[38;2;10;20;30m▄"
    );
}

#[test]
fn adjacent_cells_with_the_same_colors_need_no_escape_between_them() {
    let prev = RgbImage::new(4, 2);
    let img = image(4, 2, &[A, A, B, C, B, B, A, C]);
    // (A,B) (A,B) (B,A) and then a full block of C twice would need C again
    assert_eq!(
        image_to_ansi(&prev, &img, false),
        "\x1B[48;2;1;2;3m\x1B[38;2;10;20;30m▄▄▀\x1B[38;2;40;50;60m█"
    );
    let img = image(3, 2, &[C, C, C, C, C, C]);
    assert_eq!(image_to_ansi(&RgbImage::new(3, 2), &img, false), "\x1B[38;2;40;50;60m███");
    let mut out = String::new();
    simple_image_to_ansi_into(&img, &mut out);
    assert_eq!(out, "\x1B[38;2;40;50;60m███\x1B[0m");
}

#[test]
fn colors_are_not_carried_into_the_next_row() {
    let img = image(1, 4, &[A, B, A, B]);
    let mut out = String::new();
    simple_image_to_ansi_into(&img, &mut out);
    assert_eq!(
        out,
        "\x1B[48;2;1;2;3m\x1B[38;2;10;20;30m▄\x1B[1D\x1B[1B\x1B[48;2;1;2;3m\x1B[38;2;10;20;30m▄\x1B[0m"
    );
    assert_eq!(
        image_to_ansi(&RgbImage::new(1, 4), &img, false),
        "\x1B[48;2;1;2;3m\x1B[38;2;10;20;30m▄\x1B[D\x1B[B\x1B[48;2;1;2;3m\x1B[38;2;10;20;30m▄"
    );
}

#[test]
fn odd_height_uses_upper_half_blocks() {
    let prev = RgbImage::new(3, 1);
    let img = image(3, 1, &[A, A, B]);
    assert_eq!(
        image_to_ansi(&prev, &img, false),
        "\x1B[38;2;1;2;3m▀▀\x1B[38;2;10;20;30m▀"
    );
    // a black pixel is unchanged against a black frame
    let img = image(3, 1, &[A, K, A]);
    assert_eq!(
        image_to_ansi(&prev, &img, false),
        "\x1B[38;2;1;2;3m▀\x1B[C\x1B[38;2;1;2;3m▀"
    );
}

#[test]
fn a_run_after_an_unchanged_cell_sets_both_colors() {
    let prev = RgbImage::new(3, 2);
    let one = (1, 2, 3);
    let two = (4, 5, 6);
    let img = image(3, 2, &[one, K, one, two, K, two]);
    assert_eq!(
        image_to_ansi(&prev, &img, false),
        "\x1B[48;2;1;2;3m\x1B[38;2;4;5;6m▄\x1B[C\x1B[48;2;1;2;3m\x1B[38;2;4;5;6m▄"
    );
    // a full block after an unchanged cell sets its color again
    let img = image(3, 2, &[one, K, one, one, K, one]);
    assert_eq!(
        image_to_ansi(&prev, &img, false),
        "\x1B[38;2;1;2;3m█\x1B[C\x1B[38;2;1;2;3m█"
    );
}

#[test]
fn previous_frame_may_be_larger() {
    let prev = image(3, 3, &[A, A, A, B, B, B, C, C, C]);
    let img = image(2, 2, &[A, A, B, D]);
    assert_eq!(
        image_to_ansi(&prev, &img, false),
        "\x1B[C\x1B[48;2;1;2;3m\x1B[38;2;70;80;255m▄"
    );
}

#[test]
fn full_redraw_replayed_shows_the_image() {
    let img = image(
        3,
        5,
        &[A, A, B, A, C, B, D, D, A, D, D, B, C, A, A],
    );
    let mut out = String::new();
    simple_image_to_ansi_into(&img, &mut out);
    // the image fills the terminal's width
    let mut t = term(3, 4, 0, 1);
    feed(&mut t, &out);
    assert!(shows(&t, &img, 0, 1));
    // the image stands inside a wider terminal
    let mut t = term(8, 5, 2, 0);
    feed(&mut t, &out);
    assert!(shows(&t, &img, 2, 0));
}

#[test]
fn diff_replayed_turns_the_previous_frame_into_the_image() {
    let prev = image(
        3,
        5,
        &[A, A, B, A, C, B, D, D, A, D, D, B, C, A, A],
    );
    let img = image(
        3,
        5,
        &[A, B, B, A, C, C, D, D, A, A, D, B, C, B, A],
    );
    for (cols, ox, full_width) in [(3usize, 0usize, true), (9, 4, false)] {
        let mut t = term(cols, 6, ox, 2);
        show(&mut t, &prev, ox, 2);
        let out = image_to_ansi(&prev, &img, full_width);
        feed(&mut t, &out);
        assert!(shows(&t, &img, ox, 2));
        assert_eq!(t.row, 4);
        if !full_width {
            assert_eq!(t.col, ox + 3);
        }
    }
}
