//! Palettes of 256 colors, cross-fading between two of them, and the color
//! cycles that rotate parts of a palette over time.

use vstd::prelude::*;
use crate::color::Rgb;

verus! {

/// Number of entries of a palette.
pub const PALETTE_SIZE: usize = 256;

/// Parts of one rotation step in which cycle phases are counted: a cycle
/// with rate `r` has moved by `elapsed * r` such parts after `elapsed`
/// milliseconds, so a rate of 1000 is one step per second.
pub const STEP_PARTS: u64 = 1_000_000;

/// One channel of a cross-fade at `num / den` of the way from `c1` to `c2`,
/// rounded to the nearest integer, halves upwards.
pub open spec fn blend_channel(c1: int, c2: int, num: int, den: int) -> int {
    (2 * (c1 * (den - num) + c2 * num) + den) / (2 * den)
}

/// The weight that a cross-fade uses for `num / den`: a fraction above one
/// counts as one, and a fraction without a denominator as zero.
pub open spec fn clamped_weight(num: int, den: int) -> int {
    if den <= 0 {
        0
    } else if num > den {
        den
    } else {
        num
    }
}

/// The color at `num / den` of the way from `a` to `b`.
pub open spec fn blend_color(a: Rgb, b: Rgb, num: int, den: int) -> Rgb {
    let d = if den <= 0 {
        1
    } else {
        den
    };
    let n = clamped_weight(num, den);
    Rgb {
        r: blend_channel(a.r as int, b.r as int, n, d) as u8,
        g: blend_channel(a.g as int, b.g as int, n, d) as u8,
        b: blend_channel(a.b as int, b.b as int, n, d) as u8,
    }
}

/// The palette at `num / den` of the way from `first` to `second`.
pub open spec fn blend_palettes(first: Seq<Rgb>, second: Seq<Rgb>, num: int, den: int) -> Seq<Rgb> {
    Seq::new(PALETTE_SIZE as nat, |i: int| blend_color(first[i], second[i], num, den))
}

/// A blended channel lies between the two channels it is blended from.
pub proof fn lemma_blend_channel_bounds(c1: int, c2: int, num: int, den: int)
    requires
        0 <= c1 <= 255,
        0 <= c2 <= 255,
        0 <= num <= den,
        den > 0,
    ensures
        0 <= blend_channel(c1, c2, num, den) <= 255,
        2 * (c1 * (den - num) + c2 * num) + den >= 0,
        2 * (c1 * (den - num) + c2 * num) + den <= 511 * den,
{
    let v = c1 * (den - num) + c2 * num;
    assert(0 <= c1 * (den - num) <= 255 * (den - num)) by (nonlinear_arith)
        requires
            0 <= c1 <= 255,
            den - num >= 0,
    ;
    assert(0 <= c2 * num <= 255 * num) by (nonlinear_arith)
        requires
            0 <= c2 <= 255,
            num >= 0,
    ;
    assert(0 <= v <= 255 * den);
    assert((2 * v + den) / (2 * den) <= 255) by (nonlinear_arith)
        requires
            0 <= v <= 255 * den,
            den > 0,
    ;
    assert((2 * v + den) / (2 * den) >= 0) by (nonlinear_arith)
        requires
            0 <= v,
            den > 0,
    ;
}

/// At weight zero a blend is its first color.
pub proof fn lemma_blend_channel_start(c1: int, c2: int, den: int)
    requires
        0 <= c1,
        den > 0,
    ensures
        blend_channel(c1, c2, 0, den) == c1,
{
    assert(c1 * (den - 0) + c2 * 0 == c1 * den) by (nonlinear_arith);
    assert((2 * (c1 * den) + den) / (2 * den) == c1) by (nonlinear_arith)
        requires
            0 <= c1,
            den > 0,
    ;
}

/// At weight one a blend is its second color.
pub proof fn lemma_blend_channel_end(c1: int, c2: int, den: int)
    requires
        0 <= c2,
        den > 0,
    ensures
        blend_channel(c1, c2, den, den) == c2,
{
    assert(c1 * (den - den) + c2 * den == c2 * den) by (nonlinear_arith);
    assert((2 * (c2 * den) + den) / (2 * den) == c2) by (nonlinear_arith)
        requires
            0 <= c2,
            den > 0,
    ;
}

/// At weight one half a blend is the average, rounded with halves upwards.
pub proof fn lemma_blend_channel_half(c1: int, c2: int, num: int)
    requires
        0 <= c1,
        0 <= c2,
        num > 0,
    ensures
        blend_channel(c1, c2, num, 2 * num) == (c1 + c2 + 1) / 2,
{
    assert(2 * (c1 * (2 * num - num) + c2 * num) + 2 * num == (c1 + c2 + 1) * (2 * num))
        by (nonlinear_arith);
    assert(((c1 + c2 + 1) * (2 * num)) / (2 * (2 * num)) == (c1 + c2 + 1) / 2) by (nonlinear_arith)
        requires
            0 <= c1 + c2 + 1,
            num > 0,
    ;
}

/// A cross-fade at zero is the first palette, at one the second palette.
pub proof fn lemma_blend_ends(first: Seq<Rgb>, second: Seq<Rgb>, den: int)
    requires
        first.len() == PALETTE_SIZE,
        second.len() == PALETTE_SIZE,
        den > 0,
    ensures
        blend_palettes(first, second, 0, den) == first,
        blend_palettes(first, second, den, den) == second,
{
    assert forall|i: int| 0 <= i < PALETTE_SIZE implies blend_color(first[i], second[i], 0, den)
        == first[i] by {
        lemma_blend_channel_start(first[i].r as int, second[i].r as int, den);
        lemma_blend_channel_start(first[i].g as int, second[i].g as int, den);
        lemma_blend_channel_start(first[i].b as int, second[i].b as int, den);
    }
    assert forall|i: int| 0 <= i < PALETTE_SIZE implies blend_color(first[i], second[i], den, den)
        == second[i] by {
        lemma_blend_channel_end(first[i].r as int, second[i].r as int, den);
        lemma_blend_channel_end(first[i].g as int, second[i].g as int, den);
        lemma_blend_channel_end(first[i].b as int, second[i].b as int, den);
    }
    assert(blend_palettes(first, second, 0, den) =~= first);
    assert(blend_palettes(first, second, den, den) =~= second);
}

/// The channel-wise average of two colors, rounded with halves upwards.
pub open spec fn average_color(a: Rgb, b: Rgb) -> Rgb {
    Rgb {
        r: ((a.r + b.r + 1) / 2) as u8,
        g: ((a.g + b.g + 1) / 2) as u8,
        b: ((a.b + b.b + 1) / 2) as u8,
    }
}

/// A cross-fade at one half is the rounded channel-wise average.
pub proof fn lemma_blend_half(first: Seq<Rgb>, second: Seq<Rgb>, num: int)
    requires
        first.len() == PALETTE_SIZE,
        second.len() == PALETTE_SIZE,
        num > 0,
    ensures
        blend_palettes(first, second, num, 2 * num) == Seq::new(
            PALETTE_SIZE as nat,
            |i: int| average_color(first[i], second[i]),
        ),
{
    assert forall|i: int| 0 <= i < PALETTE_SIZE implies blend_color(first[i], second[i], num, 2 * num)
        == average_color(first[i], second[i]) by {
        lemma_blend_channel_half(first[i].r as int, second[i].r as int, num);
        lemma_blend_channel_half(first[i].g as int, second[i].g as int, num);
        lemma_blend_channel_half(first[i].b as int, second[i].b as int, num);
    }
    assert(blend_palettes(first, second, num, 2 * num) =~= Seq::new(
        PALETTE_SIZE as nat,
        |i: int| average_color(first[i], second[i]),
    ));
}

fn blend_one(c1: u8, c2: u8, num: u64, den: u64) -> (c: u8)
    requires
        0 <= num <= den,
        den > 0,
    ensures
        c == blend_channel(c1 as int, c2 as int, num as int, den as int),
{
    proof {
        lemma_blend_channel_bounds(c1 as int, c2 as int, num as int, den as int);
        assert(0 <= c1 * (den - num) <= 255 * (den - num)) by (nonlinear_arith)
            requires
                0 <= c1 <= 255,
                den - num >= 0,
        ;
        assert(0 <= c2 * num <= 255 * num) by (nonlinear_arith)
            requires
                0 <= c2 <= 255,
                num >= 0,
        ;
    }
    let a: u128 = (c1 as u128) * ((den - num) as u128);
    let b: u128 = (c2 as u128) * (num as u128);
    let v: u128 = (2 * (a + b) + den as u128) / (2 * den as u128);
    v as u8
}

/// The color at `num / den` of the way from `a` to `b`.
pub fn blend_rgb(a: Rgb, b: Rgb, num: u64, den: u64) -> (c: Rgb)
    ensures
        c == blend_color(a, b, num as int, den as int),
{
    let d: u64 = if den == 0 {
        1
    } else {
        den
    };
    let n: u64 = if den == 0 {
        0
    } else if num > den {
        den
    } else {
        num
    };
    Rgb {
        r: blend_one(a.r, b.r, n, d),
        g: blend_one(a.g, b.g, n, d),
        b: blend_one(a.b, b.b, n, d),
    }
}

/// An ordered set of 256 colors, addressed by index.
#[derive(Debug)]
pub struct Palette {
    colors: Vec<Rgb>,
}

impl View for Palette {
    type V = Seq<Rgb>;

    closed spec fn view(&self) -> Seq<Rgb> {
        self.colors@
    }
}

impl Palette {
    #[verifier::type_invariant]
    pub closed spec fn inv(&self) -> bool {
        self.colors@.len() == PALETTE_SIZE
    }

    /// A palette of 256 times black.
    pub fn new() -> (p: Palette)
        ensures
            p@ == Seq::new(PALETTE_SIZE as nat, |i: int| Rgb::black()),
    {
        let black = Rgb { r: 0, g: 0, b: 0 };
        let colors = vec![black; PALETTE_SIZE];
        assert(colors@ =~= Seq::new(PALETTE_SIZE as nat, |i: int| Rgb::black()));
        Palette { colors }
    }

    /// A palette of the given colors: those beyond the 256th are left out,
    /// and entries that `colors` does not reach are black.
    pub fn from_colors(colors: &Vec<Rgb>) -> (p: Palette)
        ensures
            p@ == Seq::new(
                PALETTE_SIZE as nat,
                |i: int|
                    if i < colors@.len() {
                        colors@[i]
                    } else {
                        Rgb::black()
                    },
            ),
    {
        let mut p = Palette::new();
        let mut i: usize = 0;
        while i < PALETTE_SIZE && i < colors.len()
            invariant
                i <= PALETTE_SIZE,
                i <= colors@.len(),
                p@.len() == PALETTE_SIZE,
                forall|k: int| 0 <= k < i ==> p@[k] == colors@[k],
                forall|k: int| i <= k < PALETTE_SIZE ==> p@[k] == Rgb::black(),
            decreases PALETTE_SIZE - i,
        {
            p.colors[i] = colors[i];
            i += 1;
        }
        assert(p@ =~= Seq::new(
            PALETTE_SIZE as nat,
            |i: int|
                if i < colors@.len() {
                    colors@[i]
                } else {
                    Rgb::black()
                },
        ));
        p
    }

    /// The color at `index`.
    pub fn get(&self, index: u8) -> (c: Rgb)
        ensures
            c == self@[index as int],
            self@.len() == PALETTE_SIZE,
    {
        proof {
            use_type_invariant(self);
        }
        self.colors[index as usize]
    }

    /// Replaces the color at `index`.
    pub fn set(&mut self, index: u8, c: Rgb)
        ensures
            final(self)@ == old(self)@.update(index as int, c),
            final(self)@.len() == PALETTE_SIZE,
    {
        proof {
            use_type_invariant(&*self);
        }
        self.colors[index as usize] = c;
    }
}

impl Clone for Palette {
    fn clone(&self) -> (p: Palette)
        ensures
            p@ == self@,
    {
        proof {
            use_type_invariant(self);
        }
        let p = Palette::from_colors(&self.colors);
        assert(p@ =~= self@);
        p
    }
}

/// Cross-fades from `first` to `second` into `out`: each channel of each entry is
/// `c1 * (1 - t) + c2 * t` for `t = num / den`, rounded to the nearest
/// integer. A `t` above one counts as one, and `den == 0` as `t == 0`.
pub fn blend(first: &Palette, second: &Palette, num: u64, den: u64, out: &mut Palette)
    ensures
        final(out)@ == blend_palettes(first@, second@, num as int, den as int),
{
    let mut i: usize = 0;
    proof {
        use_type_invariant(&*out);
        use_type_invariant(first);
        use_type_invariant(second);
    }
    while i < PALETTE_SIZE
        invariant
            i <= PALETTE_SIZE,
            out@.len() == PALETTE_SIZE,
            first@.len() == PALETTE_SIZE,
            second@.len() == PALETTE_SIZE,
            forall|k: int|
                0 <= k < i ==> out@[k] == blend_color(first@[k], second@[k], num as int, den as int),
        decreases PALETTE_SIZE - i,
    {
        let c = blend_rgb(first.colors[i], second.colors[i], num, den);
        out.colors[i] = c;
        i += 1;
    }
    assert(out@ =~= blend_palettes(first@, second@, num as int, den as int));
}

/// A contiguous part of the palette that rotates over time.
#[derive(Clone, Copy, Debug, PartialEq, Eq, Structural)]
pub struct ColorCycle {
    /// Index of the first entry of the range.
    pub start: u8,
    /// Number of entries of the range. What reaches beyond the palette's end
    /// is not part of the range.
    pub len: u16,
    /// Speed of the rotation, in thousandths of a step per second.
    pub rate: u32,
    /// Rotate towards lower indices instead of higher ones.
    pub reverse: bool,
}

impl ColorCycle {
    /// Number of entries that rotate: the range's length, cut off at the
    /// palette's end.
    pub open spec fn span(self) -> int {
        if self.start + self.len > PALETTE_SIZE {
            PALETTE_SIZE - self.start
        } else {
            self.len as int
        }
    }

    /// How far the range has rotated after `elapsed_ms` milliseconds, in
    /// parts of a step and within one full turn.
    pub open spec fn rotation(self, elapsed_ms: int) -> int {
        (elapsed_ms * self.rate) % (self.span() * STEP_PARTS)
    }

    /// The rotation rounded to whole steps; a full turn is no step.
    pub open spec fn shift(self, rotation: int) -> int {
        ((rotation + STEP_PARTS / 2) / (STEP_PARTS as int)) % self.span()
    }

    /// The offset in the range from which entry `j` of the range takes its
    /// color after a rotation by `k` steps.
    pub open spec fn source_offset(self, j: int, k: int) -> int {
        if self.reverse {
            (j + k) % self.span()
        } else {
            (j - k) % self.span()
        }
    }

    /// The color of entry `j` of the range at the given rotation. Without
    /// blending the rotation is rounded to whole steps. With blending the
    /// color is cross-faded between the two whole steps around the rotation,
    /// weighted by the part of a step that the rotation is beyond the lower.
    pub open spec fn color_for(self, src: Seq<Rgb>, rotation: int, blend: bool, j: int) -> Rgb {
        if blend {
            let k = rotation / (STEP_PARTS as int);
            blend_color(
                src[self.start + self.source_offset(j, k)],
                src[self.start + self.source_offset(j, k + 1)],
                rotation % (STEP_PARTS as int),
                STEP_PARTS as int,
            )
        } else {
            src[self.start + self.source_offset(j, self.shift(rotation))]
        }
    }

    /// The palette `out` with the entries of this range replaced by the
    /// rotated colors of `src`.
    pub open spec fn apply(self, src: Seq<Rgb>, out: Seq<Rgb>, elapsed_ms: int, blend: bool) -> Seq<
        Rgb,
    > {
        Seq::new(
            PALETTE_SIZE as nat,
            |i: int|
                if self.start <= i < self.start + self.span() {
                    self.color_for(src, self.rotation(elapsed_ms), blend, i - self.start)
                } else {
                    out[i]
                },
        )
    }
}

/// The palette `src` with all `cycles` applied at `elapsed_ms` milliseconds.
/// Each cycle takes its colors from `src`; where ranges overlap, the cycle
/// later in the list decides.
pub open spec fn apply_cycles(
    src: Seq<Rgb>,
    cycles: Seq<ColorCycle>,
    elapsed_ms: int,
    blend: bool,
) -> Seq<Rgb>
    decreases cycles.len(),
{
    if cycles.len() == 0 {
        src
    } else {
        cycles.last().apply(
            src,
            apply_cycles(src, cycles.drop_last(), elapsed_ms, blend),
            elapsed_ms,
            blend,
        )
    }
}

/// The rotation of `c` after `elapsed_ms` milliseconds.
fn rotation_of(c: ColorCycle, span: u16, elapsed_ms: u64) -> (rot: u64)
    requires
        span == c.span(),
        span >= 1,
    ensures
        rot == c.rotation(elapsed_ms as int),
        0 <= rot < span * STEP_PARTS,
{
    proof {
        assert(0 <= elapsed_ms * c.rate <= 0xffff_ffff_ffff_ffff * 0xffff_ffff) by (nonlinear_arith)
            requires
                0 <= elapsed_ms <= 0xffff_ffff_ffff_ffff,
                0 <= c.rate <= 0xffff_ffff,
        ;
    }
    let phase: u128 = (elapsed_ms as u128) * (c.rate as u128);
    let period: u128 = (span as u128) * (STEP_PARTS as u128);
    (phase % period) as u64
}

/// `(j - k) mod span` or, reversed, `(j + k) mod span`.
fn source_offset_of(c: ColorCycle, span: u16, j: u16, k: u16) -> (o: u16)
    requires
        span == c.span(),
        span >= 1,
        j < span,
        k <= span,
    ensures
        o == c.source_offset(j as int, k as int),
        o < span,
{
    if c.reverse {
        ((j as u32 + k as u32) % (span as u32)) as u16
    } else {
        let o = ((j as u32 + span as u32 - k as u32) % (span as u32)) as u16;
        proof {
            let jj = j as int;
            let kk = k as int;
            let ss = span as int;
            assert((jj + ss - kk) % ss == (jj - kk) % ss) by {
                vstd::arithmetic::div_mod::lemma_mod_add_multiples_vanish(jj - kk, ss);
            }
        }
        o
    }
}

/// The color of entry `j` of the range of `c` at rotation `rot`.
fn cycle_color(src: &Palette, c: ColorCycle, span: u16, rot: u64, blend: bool, j: u16) -> (color:
    Rgb)
    requires
        span == c.span(),
        span >= 1,
        j < span,
        0 <= rot < span * STEP_PARTS,
    ensures
        color == c.color_for(src@, rot as int, blend, j as int),
{
    proof {
        assert(rot / STEP_PARTS < span) by (nonlinear_arith)
            requires
                0 <= rot < span * STEP_PARTS,
                STEP_PARTS == 1_000_000,
        ;
        assert((rot + STEP_PARTS / 2) / (STEP_PARTS as int) <= span) by (nonlinear_arith)
            requires
                0 <= rot < span * STEP_PARTS,
                STEP_PARTS == 1_000_000,
        ;
    }
    if blend {
        let k: u16 = (rot / STEP_PARTS) as u16;
        let lower = source_offset_of(c, span, j, k);
        let upper = source_offset_of(c, span, j, k + 1);
        let a = src.get(c.start + lower as u8);
        let b = src.get(c.start + upper as u8);
        blend_rgb(a, b, rot % STEP_PARTS, STEP_PARTS)
    } else {
        let k: u16 = (((rot + STEP_PARTS / 2) / STEP_PARTS) % (span as u64)) as u16;
        let o = source_offset_of(c, span, j, k);
        src.get(c.start + o as u8)
    }
}

impl Palette {
    /// Makes this palette `src` with all `cycles` applied at `elapsed_ms`
    /// milliseconds of playback. With `blend` the colors of a range are
    /// cross-faded between two rotation steps; without it the rotation is
    /// rounded to whole steps. Entries outside all ranges are those of `src`.
    pub fn apply_cycles_from(
        &mut self,
        src: &Palette,
        cycles: &Vec<ColorCycle>,
        elapsed_ms: u64,
        blend: bool,
    )
        ensures
            final(self)@ == apply_cycles(src@, cycles@, elapsed_ms as int, blend),
    {
        proof {
            use_type_invariant(&*self);
            use_type_invariant(src);
        }
        let mut i: usize = 0;
        while i < PALETTE_SIZE
            invariant
                i <= PALETTE_SIZE,
                self@.len() == PALETTE_SIZE,
                src@.len() == PALETTE_SIZE,
                forall|k: int| 0 <= k < i ==> self@[k] == src@[k],
            decreases PALETTE_SIZE - i,
        {
            let c = src.colors[i];
            self.colors[i] = c;
            i += 1;
        }
        assert(self@ =~= src@);
        assert(cycles@.take(0) =~= Seq::<ColorCycle>::empty());
        let mut n: usize = 0;
        while n < cycles.len()
            invariant
                n <= cycles@.len(),
                self@.len() == PALETTE_SIZE,
                src@.len() == PALETTE_SIZE,
                self@ == apply_cycles(src@, cycles@.take(n as int), elapsed_ms as int, blend),
            decreases cycles@.len() - n,
        {
            let c = cycles[n];
            let span: u16 = if c.start as u32 + c.len as u32 > 256 {
                256 - c.start as u16
            } else {
                c.len
            };
            let ghost before = self@;
            if span >= 1 {
                let rot = rotation_of(c, span, elapsed_ms);
                let mut j: u16 = 0;
                while j < span
                    invariant
                        j <= span,
                        span == c.span(),
                        span >= 1,
                        rot == c.rotation(elapsed_ms as int),
                        0 <= rot < span * STEP_PARTS,
                        self@.len() == PALETTE_SIZE,
                        src@.len() == PALETTE_SIZE,
                        before.len() == PALETTE_SIZE,
                        forall|k: int|
                            c.start <= k < c.start + j ==> self@[k] == c.color_for(
                                src@,
                                rot as int,
                                blend,
                                k - c.start,
                            ),
                        forall|k: int|
                            0 <= k < PALETTE_SIZE && !(c.start <= k < c.start + j) ==> self@[k]
                                == before[k],
                    decreases span - j,
                {
                    let color = cycle_color(src, c, span, rot, blend, j);
                    self.colors[(c.start as u16 + j) as usize] = color;
                    j += 1;
                }
            }
            proof {
                assert(self@ =~= c.apply(src@, before, elapsed_ms as int, blend));
                assert(cycles@.take(n + 1).drop_last() =~= cycles@.take(n as int));
                assert(cycles@.take(n + 1).last() == c);
            }
            n += 1;
        }
        assert(cycles@.take(cycles@.len() as int) =~= cycles@);
    }
}

/// A range that has rotated by a full turn shows its colors unchanged: when
/// `elapsed_ms * rate` is the range's length in parts of a step, without
/// blending, applying the cycle to a palette gives the palette back.
pub proof fn lemma_cycle_period(c: ColorCycle, src: Seq<Rgb>, elapsed_ms: int)
    requires
        src.len() == PALETTE_SIZE,
        elapsed_ms * c.rate == c.span() * STEP_PARTS,
    ensures
        c.apply(src, src, elapsed_ms, false) == src,
{
    let span = c.span();
    if span >= 1 {
        let period = span * STEP_PARTS;
        assert(period % period == 0) by (nonlinear_arith)
            requires
                period > 0,
        ;
        assert(c.rotation(elapsed_ms) == 0);
        assert(c.shift(0) == 0) by {
            assert((0 + STEP_PARTS / 2) / (STEP_PARTS as int) == 0);
            assert(0int % span == 0);
        }
        assert forall|i: int| c.start <= i < c.start + span implies c.color_for(
            src,
            0,
            false,
            i - c.start,
        ) == src[i] by {
            let j = i - c.start;
            vstd::arithmetic::div_mod::lemma_small_mod(j as nat, span as nat);
        }
    }
    assert(c.apply(src, src, elapsed_ms, false) =~= src);
}

/// A range that has rotated by half a turn is rotated by half its length,
/// rounded up: when twice `elapsed_ms * rate` is the range's length in parts
/// of a step, without blending, each entry of the range has the color that
/// stood that many places before it, or after it for a reversed cycle.
pub proof fn lemma_cycle_half_period(c: ColorCycle, src: Seq<Rgb>, elapsed_ms: int, j: int)
    requires
        src.len() == PALETTE_SIZE,
        c.span() >= 2,
        2 * (elapsed_ms * c.rate) == c.span() * STEP_PARTS,
        0 <= j < c.span(),
    ensures
        c.shift(c.rotation(elapsed_ms)) == (c.span() + 1) / 2,
        c.apply(src, src, elapsed_ms, false)[c.start + j] == src[c.start + c.source_offset(
            j,
            (c.span() + 1) / 2,
        )],
{
    let span = c.span();
    let phase = elapsed_ms * c.rate;
    let period = span * STEP_PARTS;
    assert(phase == span * 500_000);
    assert(0 <= phase < period);
    vstd::arithmetic::div_mod::lemma_small_mod(phase as nat, period as nat);
    assert(c.rotation(elapsed_ms) == phase);
    assert((span * 500_000 + 500_000) / 1_000_000 == (span + 1) / 2) by (nonlinear_arith)
        requires
            span >= 0,
    ;
    let half = (span + 1) / 2;
    assert(0 <= half < span);
    vstd::arithmetic::div_mod::lemma_small_mod(half as nat, span as nat);
    assert(c.shift(phase) == half);
}


} // verus!
