//! The escape-sequence vocabulary of the renderer and its encoding as text.

use vstd::prelude::*;
use crate::color::Rgb;
use crate::text::{decimal, push_decimal};

verus! {

/// The three glyphs a cell can show. Each splits the cell into an upper and a
/// lower half: the glyph's inked part takes the foreground color, the rest the
/// background color.
#[derive(Clone, Copy, Debug, PartialEq, Eq, Structural)]
pub enum Glyph {
    /// `▀`: upper half inked.
    Upper,
    /// `▄`: lower half inked.
    Lower,
    /// `█`: both halves inked.
    Full,
}

/// Direction of a relative cursor move.
#[derive(Clone, Copy, Debug, PartialEq, Eq, Structural)]
pub enum Dir {
    Up,
    Down,
    Right,
    Left,
}

/// One unit of renderer output.
pub enum Op {
    /// Select the foreground color.
    Fg(Rgb),
    /// Select the background color.
    Bg(Rgb),
    /// Print a glyph at the cursor.
    Put(Glyph),
    /// Move the cursor by one cell, in the short form without a parameter.
    Step(Dir),
    /// Move the cursor by the given number of cells, in the parameterized form.
    Move(Dir, nat),
    /// Reset all attributes.
    Reset,
}

impl Glyph {
    pub open spec fn text(self) -> Seq<char> {
        match self {
            Glyph::Upper => "▀"@,
            Glyph::Lower => "▄"@,
            Glyph::Full => "█"@,
        }
    }
}

impl Dir {
    /// The final character of a cursor move in this direction.
    pub open spec fn letter(self) -> Seq<char> {
        match self {
            Dir::Up => "A"@,
            Dir::Down => "B"@,
            Dir::Right => "C"@,
            Dir::Left => "D"@,
        }
    }
}

/// `r;g;b` in decimal.
pub open spec fn triple(c: Rgb) -> Seq<char> {
    decimal(c.r as nat) + ";"@ + decimal(c.g as nat) + ";"@ + decimal(c.b as nat)
}

impl Op {
    /// The characters that this unit is written as.
    pub open spec fn encode(self) -> Seq<char> {
        match self {
            Op::Fg(c) => "\x1B[38;2;"@ + triple(c) + "m"@,
            Op::Bg(c) => "\x1B[48;2;"@ + triple(c) + "m"@,
            Op::Put(g) => g.text(),
            Op::Step(d) => "\x1B["@ + d.letter(),
            Op::Move(d, n) => "\x1B["@ + decimal(n) + d.letter(),
            Op::Reset => "\x1B[0m"@,
        }
    }
}

/// The text of a sequence of units: their encodings, one after the other.
pub open spec fn encode_all(ops: Seq<Op>) -> Seq<char>
    decreases ops.len(),
{
    if ops.len() == 0 {
        Seq::empty()
    } else {
        encode_all(ops.drop_last()) + ops.last().encode()
    }
}

/// The text of a sequence with one more unit is the sequence's text followed
/// by the unit's.
pub proof fn lemma_encode_push(ops: Seq<Op>, op: Op)
    ensures
        encode_all(ops.push(op)) == encode_all(ops) + op.encode(),
{
    assert(ops.push(op).drop_last() =~= ops);
}

/// The text of two sequences, one after the other, is their texts one after
/// the other.
pub proof fn lemma_encode_concat(a: Seq<Op>, b: Seq<Op>)
    ensures
        encode_all(a + b) == encode_all(a) + encode_all(b),
    decreases b.len(),
{
    if b.len() == 0 {
        assert(a + b =~= a);
        assert(encode_all(a) + encode_all(b) =~= encode_all(a));
    } else {
        lemma_encode_concat(a, b.drop_last());
        assert((a + b).drop_last() =~= a + b.drop_last());
        assert((a + b).last() == b.last());
        assert(encode_all(a) + (encode_all(b.drop_last()) + b.last().encode()) =~= (encode_all(a)
            + encode_all(b.drop_last())) + b.last().encode());
    }
}

/// The text of a single unit.
pub proof fn lemma_encode_one(a: Op)
    ensures
        encode_all(seq![a]) == a.encode(),
{
    lemma_encode_push(Seq::empty(), a);
    assert(Seq::<Op>::empty().push(a) =~= seq![a]);
    assert(Seq::<char>::empty() + a.encode() =~= a.encode());
}

/// The text of two units.
pub proof fn lemma_encode_two(a: Op, b: Op)
    ensures
        encode_all(seq![a, b]) == a.encode() + b.encode(),
{
    lemma_encode_one(a);
    lemma_encode_push(seq![a], b);
    assert(seq![a].push(b) =~= seq![a, b]);
}

/// The text of three units.
pub proof fn lemma_encode_three(a: Op, b: Op, c: Op)
    ensures
        encode_all(seq![a, b, c]) == a.encode() + b.encode() + c.encode(),
{
    lemma_encode_two(a, b);
    lemma_encode_push(seq![a, b], c);
    assert(seq![a, b].push(c) =~= seq![a, b, c]);
}

/// Appends `r;g;b` in decimal.
fn push_triple(out: &mut String, c: Rgb)
    ensures
        final(out)@ == old(out)@ + triple(c),
{
    push_decimal(out, c.r as u64);
    out.push_str(";");
    push_decimal(out, c.g as u64);
    out.push_str(";");
    push_decimal(out, c.b as u64);
    assert(out@ =~= old(out)@ + triple(c));
}

/// Appends the sequence that selects `c` as the foreground color.
pub fn push_fg(out: &mut String, c: Rgb)
    ensures
        final(out)@ == old(out)@ + Op::Fg(c).encode(),
{
    out.push_str("\x1B[38;2;");
    push_triple(out, c);
    out.push_str("m");
    assert(out@ =~= old(out)@ + Op::Fg(c).encode());
}

/// Appends the sequence that selects `c` as the background color.
pub fn push_bg(out: &mut String, c: Rgb)
    ensures
        final(out)@ == old(out)@ + Op::Bg(c).encode(),
{
    out.push_str("\x1B[48;2;");
    push_triple(out, c);
    out.push_str("m");
    assert(out@ =~= old(out)@ + Op::Bg(c).encode());
}

/// Appends a glyph.
pub fn push_glyph(out: &mut String, g: Glyph)
    ensures
        final(out)@ == old(out)@ + Op::Put(g).encode(),
{
    match g {
        Glyph::Upper => out.push_str("▀"),
        Glyph::Lower => out.push_str("▄"),
        Glyph::Full => out.push_str("█"),
    }
}

/// Appends the final character of a cursor move.
fn push_letter(out: &mut String, d: Dir)
    ensures
        final(out)@ == old(out)@ + d.letter(),
{
    match d {
        Dir::Up => out.push_str("A"),
        Dir::Down => out.push_str("B"),
        Dir::Right => out.push_str("C"),
        Dir::Left => out.push_str("D"),
    }
}

/// Appends a cursor move by one cell in its short form.
pub fn push_step(out: &mut String, d: Dir)
    ensures
        final(out)@ == old(out)@ + Op::Step(d).encode(),
{
    out.push_str("\x1B[");
    push_letter(out, d);
    assert(out@ =~= old(out)@ + Op::Step(d).encode());
}

/// Appends a cursor move by `n` cells in its parameterized form.
pub fn push_move(out: &mut String, d: Dir, n: u32)
    ensures
        final(out)@ == old(out)@ + Op::Move(d, n as nat).encode(),
{
    out.push_str("\x1B[");
    push_decimal(out, n as u64);
    push_letter(out, d);
    assert(out@ =~= old(out)@ + Op::Move(d, n as nat).encode());
}

/// Appends the sequence that resets all attributes.
pub fn push_reset(out: &mut String)
    ensures
        final(out)@ == old(out)@ + Op::Reset.encode(),
{
    out.push_str("\x1B[0m");
}

/// The units of a relative move by `n` cells: nothing for no distance, the
/// short form for one cell, the parameterized form for more.
pub open spec fn shift_ops(d: Dir, n: int) -> Seq<Op> {
    if n <= 0 {
        Seq::empty()
    } else if n == 1 {
        seq![Op::Step(d)]
    } else {
        seq![Op::Move(d, n as nat)]
    }
}

/// Appends a relative move by `n` cells.
pub fn push_shift(out: &mut String, d: Dir, n: u32)
    ensures
        final(out)@ == old(out)@ + encode_all(shift_ops(d, n as int)),
{
    if n == 1 {
        push_step(out, d);
        proof {
            lemma_encode_one(Op::Step(d));
        }
    } else if n > 1 {
        push_move(out, d, n);
        proof {
            lemma_encode_one(Op::Move(d, n as nat));
        }
    } else {
        assert(out@ =~= old(out)@ + encode_all(shift_ops(d, n as int)));
    }
}

} // verus!
