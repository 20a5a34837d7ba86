//! Reading the renderer's text back, character by character, as a terminal
//! does, and what the text does to a terminal.

use vstd::prelude::*;
use crate::ansi::{encode_all, triple, Dir, Glyph, Op};
use crate::color::Rgb;
use crate::image::Frame;
use crate::image_to_ansi::{diff_ops, redraw_ops};
use crate::screen::{
    diff_ready, lemma_diff_shows_image, lemma_full_redraw_shows_image, Screen,
};
use crate::text::{decimal, digit_char};

verus! {

/// Where the reader stands inside the text.
pub enum Reading {
    /// Outside any sequence.
    Ground,
    /// After `ESC`.
    Escape,
    /// After `ESC [`, with the parameters that are complete and the digits of
    /// the one that is being read.
    Parameters(Seq<nat>, Option<nat>),
}

/// What the reader has made of the text so far.
pub struct Reader {
    pub state: Reading,
    /// The units read.
    pub ops: Seq<Op>,
    /// The text held something that is no unit.
    pub failed: bool,
}

pub open spec fn is_digit(c: char) -> bool {
    '0' <= c && c <= '9'
}

/// The glyph that a character is, if it is one.
pub open spec fn glyph_of(c: char) -> Option<Glyph> {
    if c == '▀' {
        Some(Glyph::Upper)
    } else if c == '▄' {
        Some(Glyph::Lower)
    } else if c == '█' {
        Some(Glyph::Full)
    } else {
        None
    }
}

/// The direction that the final character of a cursor move stands for.
pub open spec fn dir_of(c: char) -> Option<Dir> {
    if c == 'A' {
        Some(Dir::Up)
    } else if c == 'B' {
        Some(Dir::Down)
    } else if c == 'C' {
        Some(Dir::Right)
    } else if c == 'D' {
        Some(Dir::Left)
    } else {
        None
    }
}

/// The color that the parameters of a color selection name, from the third
/// parameter on.
pub open spec fn color_of(params: Seq<nat>) -> Option<Rgb> {
    if params.len() == 5 && params[1] == 2 && params[2] < 256 && params[3] < 256 && params[4]
        < 256 {
        Some(Rgb { r: params[2] as u8, g: params[3] as u8, b: params[4] as u8 })
    } else {
        None
    }
}

/// The unit that a sequence with the given parameters and final character
/// is, if it is one.
pub open spec fn unit_of(params: Seq<nat>, last: char) -> Option<Op> {
    match dir_of(last) {
        Some(d) => if params.len() == 0 {
            Some(Op::Step(d))
        } else if params.len() == 1 {
            Some(Op::Move(d, params[0]))
        } else {
            None
        },
        None => if last != 'm' {
            None
        } else if params =~= seq![0nat] {
            Some(Op::Reset)
        } else if params.len() == 5 && params[0] == 38 {
            match color_of(params) {
                Some(c) => Some(Op::Fg(c)),
                None => None,
            }
        } else if params.len() == 5 && params[0] == 48 {
            match color_of(params) {
                Some(c) => Some(Op::Bg(c)),
                None => None,
            }
        } else {
            None
        },
    }
}

impl Reader {
    /// The reader before any text.
    pub open spec fn start() -> Reader {
        Reader { state: Reading::Ground, ops: Seq::empty(), failed: false }
    }

    /// The reader after one more character.
    pub open spec fn step(self, c: char) -> Reader {
        match self.state {
            Reading::Ground => if c == '\x1b' {
                Reader { state: Reading::Escape, ..self }
            } else {
                match glyph_of(c) {
                    Some(g) => Reader { ops: self.ops.push(Op::Put(g)), ..self },
                    None => Reader { failed: true, ..self },
                }
            },
            Reading::Escape => if c == '[' {
                Reader { state: Reading::Parameters(Seq::empty(), None), ..self }
            } else {
                Reader { state: Reading::Ground, failed: true, ..self }
            },
            Reading::Parameters(params, current) => if is_digit(c) {
                let before = match current {
                    Some(n) => n,
                    None => 0,
                };
                Reader {
                    state: Reading::Parameters(
                        params,
                        Some((before * 10 + (c as u8 - 48)) as nat),
                    ),
                    ..self
                }
            } else if c == ';' {
                Reader {
                    state: Reading::Parameters(
                        params.push(
                            match current {
                                Some(n) => n,
                                None => 0,
                            },
                        ),
                        None,
                    ),
                    ..self
                }
            } else {
                let all = match current {
                    Some(n) => params.push(n),
                    None => params,
                };
                match unit_of(all, c) {
                    Some(op) => Reader { state: Reading::Ground, ops: self.ops.push(op), ..self },
                    None => Reader { state: Reading::Ground, failed: true, ..self },
                }
            },
        }
    }

    /// The reader after the characters of `text`.
    pub open spec fn read(self, text: Seq<char>) -> Reader
        decreases text.len(),
    {
        if text.len() == 0 {
            self
        } else {
            self.read(text.drop_last()).step(text.last())
        }
    }

    /// The reader stands between two units and has met nothing else.
    pub open spec fn ready(self) -> bool {
        self.state is Ground && !self.failed
    }
}

impl Screen {
    /// The screen after `text` was written to it. Text that holds something
    /// other than the renderer's units, or ends inside one, is not accounted
    /// for: it leaves the screen as it is.
    pub open spec fn written(self, text: Seq<char>) -> Screen {
        let r = Reader::start().read(text);
        if r.ready() {
            self.replay(r.ops)
        } else {
            self
        }
    }
}

/// Reading one more character is one more step.
pub proof fn lemma_read_push(r: Reader, text: Seq<char>, c: char)
    ensures
        r.read(text.push(c)) == r.read(text).step(c),
{
    assert(text.push(c).drop_last() =~= text);
}

/// Reading two texts, one after the other, is reading the second from where
/// the first ends.
pub proof fn lemma_read_concat(r: Reader, a: Seq<char>, b: Seq<char>)
    ensures
        r.read(a + b) == r.read(a).read(b),
    decreases b.len(),
{
    if b.len() == 0 {
        assert(a + b =~= a);
    } else {
        lemma_read_concat(r, a, b.drop_last());
        assert((a + b).drop_last() =~= a + b.drop_last());
        assert((a + b).last() == b.last());
    }
}

/// Reading a number in decimal, where a parameter begins, gives that number
/// as the parameter being read.
pub proof fn lemma_read_decimal(r: Reader, params: Seq<nat>, n: nat)
    requires
        r.state == Reading::Parameters(params, None),
    ensures
        r.read(decimal(n)) == (Reader { state: Reading::Parameters(params, Some(n)), ..r }),
    decreases n,
{
    let d = digit_char((n % 10) as int);
    assert(is_digit(d) && (d as u8 - 48) == n % 10);
    if n < 10 {
        assert(decimal(n) =~= Seq::<char>::empty().push(d));
        lemma_read_push(r, Seq::empty(), d);
    } else {
        lemma_read_decimal(r, params, n / 10);
        lemma_read_push(r, decimal(n / 10), d);
    }
}

/// Reading `;` after a parameter completes the parameter.
pub proof fn lemma_read_separator(r: Reader, params: Seq<nat>, n: nat)
    requires
        r.state == Reading::Parameters(params, Some(n)),
    ensures
        r.read(";"@) == (Reader { state: Reading::Parameters(params.push(n), None), ..r }),
{
    reveal_strlit(";");
    assert(";"@ =~= Seq::<char>::empty().push(';'));
    lemma_read_push(r, Seq::empty(), ';');
}

/// Reading the start of a sequence between two units.
pub proof fn lemma_read_opening(r: Reader)
    requires
        r.ready(),
    ensures
        r.read("\x1B["@) == (Reader { state: Reading::Parameters(Seq::empty(), None), ..r }),
{
    reveal_strlit("\x1B[");
    let e = Seq::<char>::empty();
    assert("\x1B["@ =~= e.push('\x1b').push('['));
    lemma_read_push(r, e, '\x1b');
    lemma_read_push(r, e.push('\x1b'), '[');
}

/// Reading the start of a color selection between two units: the first
/// parameter is 38 for the foreground and 48 for the background, the second
/// is 2.
pub proof fn lemma_read_color_opening(r: Reader, foreground: bool)
    requires
        r.ready(),
    ensures
        r.read(
            if foreground {
                "\x1B[38;2;"@
            } else {
                "\x1B[48;2;"@
            },
        ) == (Reader {
            state: Reading::Parameters(
                seq![
                    if foreground {
                        38nat
                    } else {
                        48nat
                    },
                    2nat,
                ],
                None,
            ),
            ..r
        }),
{
    reveal_strlit("\x1B[38;2;");
    reveal_strlit("\x1B[48;2;");
    let e = Seq::<char>::empty();
    let d = if foreground {
        '3'
    } else {
        '4'
    };
    let text = if foreground {
        "\x1B[38;2;"@
    } else {
        "\x1B[48;2;"@
    };
    let t1 = e.push('\x1b');
    let t2 = t1.push('[');
    let t3 = t2.push(d);
    let t4 = t3.push('8');
    let t5 = t4.push(';');
    let t6 = t5.push('2');
    let t7 = t6.push(';');
    assert(text =~= t7);
    lemma_read_push(r, e, '\x1b');
    lemma_read_push(r, t1, '[');
    lemma_read_push(r, t2, d);
    lemma_read_push(r, t3, '8');
    lemma_read_push(r, t4, ';');
    lemma_read_push(r, t5, '2');
    lemma_read_push(r, t6, ';');
    let role: nat = if foreground {
        38
    } else {
        48
    };
    assert(Seq::<nat>::empty().push(role).push(2) =~= seq![role, 2nat]);
}

/// Reading the three channels of a color after the start of a color
/// selection.
pub proof fn lemma_read_triple(r: Reader, params: Seq<nat>, c: Rgb)
    requires
        r.state == Reading::Parameters(params, None),
    ensures
        r.read(triple(c)) == (Reader {
            state: Reading::Parameters(
                params.push(c.r as nat).push(c.g as nat),
                Some(c.b as nat),
            ),
            ..r
        }),
{
    let a = decimal(c.r as nat);
    let b = decimal(c.g as nat);
    let d = decimal(c.b as nat);
    lemma_read_decimal(r, params, c.r as nat);
    let r1 = r.read(a);
    lemma_read_separator(r1, params, c.r as nat);
    let r2 = r1.read(";"@);
    lemma_read_decimal(r2, params.push(c.r as nat), c.g as nat);
    let r3 = r2.read(b);
    lemma_read_separator(r3, params.push(c.r as nat), c.g as nat);
    let r4 = r3.read(";"@);
    lemma_read_decimal(r4, params.push(c.r as nat).push(c.g as nat), c.b as nat);
    lemma_read_concat(r, a, ";"@);
    lemma_read_concat(r, a + ";"@, b);
    lemma_read_concat(r, a + ";"@ + b, ";"@);
    lemma_read_concat(r, a + ";"@ + b + ";"@, d);
}

/// Reading a single character.
pub proof fn lemma_read_char(r: Reader, text: Seq<char>, c: char)
    requires
        text =~= seq![c],
    ensures
        r.read(text) == r.step(c),
{
    assert(text =~= Seq::<char>::empty().push(c));
    lemma_read_push(r, Seq::empty(), c);
}

/// Reading the text of one unit between two units gives that unit.
pub proof fn lemma_read_unit(r: Reader, op: Op)
    requires
        r.ready(),
    ensures
        r.read(op.encode()) == (Reader { ops: r.ops.push(op), ..r }),
{
    match op {
        Op::Fg(c) => {
            let head = "\x1B[38;2;"@;
            lemma_read_color_opening(r, true);
            let r1 = r.read(head);
            lemma_read_triple(r1, seq![38nat, 2nat], c);
            let r2 = r1.read(triple(c));
            reveal_strlit("m");
            lemma_read_char(r2, "m"@, 'm');
            lemma_read_concat(r, head, triple(c));
            lemma_read_concat(r, head + triple(c), "m"@);
            let all = seq![38nat, 2nat].push(c.r as nat).push(c.g as nat).push(c.b as nat);
            assert(color_of(all) == Some(c));
            assert(unit_of(all, 'm') == Some(op));
        },
        Op::Bg(c) => {
            let head = "\x1B[48;2;"@;
            lemma_read_color_opening(r, false);
            let r1 = r.read(head);
            lemma_read_triple(r1, seq![48nat, 2nat], c);
            let r2 = r1.read(triple(c));
            reveal_strlit("m");
            lemma_read_char(r2, "m"@, 'm');
            lemma_read_concat(r, head, triple(c));
            lemma_read_concat(r, head + triple(c), "m"@);
            let all = seq![48nat, 2nat].push(c.r as nat).push(c.g as nat).push(c.b as nat);
            assert(color_of(all) == Some(c));
            assert(unit_of(all, 'm') == Some(op));
        },
        Op::Put(g) => {
            reveal_strlit("▀");
            reveal_strlit("▄");
            reveal_strlit("█");
            match g {
                Glyph::Upper => lemma_read_char(r, "▀"@, '▀'),
                Glyph::Lower => lemma_read_char(r, "▄"@, '▄'),
                Glyph::Full => lemma_read_char(r, "█"@, '█'),
            }
        },
        Op::Step(d) => {
            lemma_read_opening(r);
            let r1 = r.read("\x1B["@);
            lemma_read_letter(r1, Seq::empty(), d);
            lemma_read_concat(r, "\x1B["@, d.letter());
        },
        Op::Move(d, n) => {
            lemma_read_opening(r);
            let r1 = r.read("\x1B["@);
            lemma_read_decimal(r1, Seq::empty(), n);
            let r2 = r1.read(decimal(n));
            lemma_read_letter_after(r2, Seq::empty(), n, d);
            lemma_read_concat(r, "\x1B["@, decimal(n));
            lemma_read_concat(r, "\x1B["@ + decimal(n), d.letter());
        },
        Op::Reset => {
            reveal_strlit("\x1B[0m");
            let e = Seq::<char>::empty();
            let t1 = e.push('\x1b');
            let t2 = t1.push('[');
            let t3 = t2.push('0');
            let t4 = t3.push('m');
            assert("\x1B[0m"@ =~= t4);
            lemma_read_push(r, e, '\x1b');
            lemma_read_push(r, t1, '[');
            lemma_read_push(r, t2, '0');
            lemma_read_push(r, t3, 'm');
            assert(Seq::<nat>::empty().push(0nat) =~= seq![0nat]);
        },
    }
}

/// Reading the final character of a cursor move without a parameter.
pub proof fn lemma_read_letter(r: Reader, params: Seq<nat>, d: Dir)
    requires
        r.state == Reading::Parameters(params, None),
        params.len() == 0,
    ensures
        r.read(d.letter()) == (Reader {
            state: Reading::Ground,
            ops: r.ops.push(Op::Step(d)),
            ..r
        }),
{
    reveal_strlit("A");
    reveal_strlit("B");
    reveal_strlit("C");
    reveal_strlit("D");
    match d {
        Dir::Up => lemma_read_char(r, "A"@, 'A'),
        Dir::Down => lemma_read_char(r, "B"@, 'B'),
        Dir::Right => lemma_read_char(r, "C"@, 'C'),
        Dir::Left => lemma_read_char(r, "D"@, 'D'),
    }
}

/// Reading the final character of a cursor move after its parameter.
pub proof fn lemma_read_letter_after(r: Reader, params: Seq<nat>, n: nat, d: Dir)
    requires
        r.state == Reading::Parameters(params, Some(n)),
        params.len() == 0,
    ensures
        r.read(d.letter()) == (Reader {
            state: Reading::Ground,
            ops: r.ops.push(Op::Move(d, n)),
            ..r
        }),
{
    reveal_strlit("A");
    reveal_strlit("B");
    reveal_strlit("C");
    reveal_strlit("D");
    assert(params.push(n).len() == 1 && params.push(n)[0] == n);
    match d {
        Dir::Up => lemma_read_char(r, "A"@, 'A'),
        Dir::Down => lemma_read_char(r, "B"@, 'B'),
        Dir::Right => lemma_read_char(r, "C"@, 'C'),
        Dir::Left => lemma_read_char(r, "D"@, 'D'),
    }
}

/// The text of a sequence of units reads back as exactly these units: no
/// two sequences of units have the same text.
pub proof fn lemma_read_encoded(r: Reader, ops: Seq<Op>)
    requires
        r.ready(),
    ensures
        r.read(encode_all(ops)) == (Reader { ops: r.ops + ops, ..r }),
    decreases ops.len(),
{
    if ops.len() == 0 {
        assert(r.ops + ops =~= r.ops);
    } else {
        let before = ops.drop_last();
        lemma_read_encoded(r, before);
        lemma_read_concat(r, encode_all(before), ops.last().encode());
        lemma_read_unit(r.read(encode_all(before)), ops.last());
        assert((r.ops + before).push(ops.last()) =~= r.ops + ops);
    }
}

/// Writing the text of a sequence of units to a screen is replaying the
/// units.
pub proof fn lemma_written_encoded(s: Screen, ops: Seq<Op>)
    ensures
        s.written(encode_all(ops)) == s.replay(ops),
{
    lemma_read_encoded(Reader::start(), ops);
    assert(Seq::<Op>::empty() + ops =~= ops);
}

/// The text of a full redraw reconstructs the image: written to a screen
/// whose cursor is in column `ox` of text row `oy`, whatever the screen
/// showed before, it leaves a screen that shows every pixel of `img` with the
/// upper left pixel at the cursor's first place, and every cell of the image
/// got exactly one glyph.
///
/// The image has to fit on the screen from there, and to start in the first
/// column if it reaches the last one.
pub proof fn lemma_full_redraw_text_shows_image(s: Screen, img: Frame, ox: int, oy: int)
    requires
        s.col == ox,
        s.row == oy,
        0 <= ox,
        0 <= oy,
        ox + img.width <= s.cols,
        oy + img.rows() <= s.lines,
        ox == 0 || ox + img.width < s.cols,
    ensures
        s.written(encode_all(redraw_ops(img))).shows(img, ox, oy),
        forall|x: int, row: int|
            0 <= x < img.width && 0 <= row < img.rows() ==> #[trigger] s.written(
                encode_all(redraw_ops(img)),
            ).paints[(ox + x, oy + row)] == s.paints[(ox + x, oy + row)] + 1,
{
    lemma_written_encoded(s, redraw_ops(img));
    lemma_full_redraw_shows_image(s, img, ox, oy);
}

/// The text of an update turns a screen on which the cells that the update
/// leaves alone show the image, as they do on a screen that shows the
/// previous frame, into one that shows the image, and leaves the cursor in
/// the image's last text row.
pub proof fn lemma_diff_text_shows_image(
    s: Screen,
    prev: Frame,
    img: Frame,
    full_width: bool,
    ox: int,
    oy: int,
)
    requires
        diff_ready(s, prev, img, full_width, ox, oy),
        s.valid(),
        s.col == ox,
        s.row == oy,
    ensures
        s.written(encode_all(diff_ops(prev, img, full_width))).shows(img, ox, oy),
        img.rows() > 0 ==> s.written(encode_all(diff_ops(prev, img, full_width))).row == oy
            + img.rows() - 1,
{
    lemma_written_encoded(s, diff_ops(prev, img, full_width));
    lemma_diff_shows_image(s, prev, img, full_width, ox, oy);
}

} // verus!
