//! Pixel grids: the RGB framebuffer and the indexed image it is composed from.

use vstd::prelude::*;
use vstd::arithmetic::div_mod::{lemma_fundamental_div_mod_converse, lemma_fundamental_div_mod};
use crate::color::Rgb;
use crate::palette::Palette;

verus! {

/// The mathematical content of a framebuffer: `width * height` pixels, row by row.
pub struct Frame {
    pub width: nat,
    pub height: nat,
    pub pixels: Seq<Rgb>,
}

impl Frame {
    /// The pixel sequence has exactly one entry per grid position.
    pub open spec fn wf(self) -> bool {
        self.pixels.len() == self.width * self.height
    }

    /// The pixel in column `x` of pixel row `y`.
    pub open spec fn at(self, x: int, y: int) -> Rgb {
        self.pixels[y * self.width + x]
    }

    /// Number of text rows: each text row shows two pixel rows, the last one
    /// possibly only one.
    pub open spec fn rows(self) -> nat {
        (self.height + 1) / 2
    }

    /// Text row `row` holds a single pixel row (the image height is odd and
    /// this is the last text row).
    pub open spec fn half_row(self, row: int) -> bool {
        2 * row + 1 == self.height
    }

    /// Upper pixel of the cell in column `x` of text row `row`.
    pub open spec fn top(self, x: int, row: int) -> Rgb {
        self.at(x, 2 * row)
    }

    /// Lower pixel of the cell in column `x` of text row `row`.
    pub open spec fn bottom(self, x: int, row: int) -> Rgb {
        self.at(x, 2 * row + 1)
    }

    /// A frame of the given extent with every pixel black.
    pub open spec fn blank(width: nat, height: nat) -> Frame {
        Frame { width, height, pixels: Seq::new(width * height, |i: int| Rgb::black()) }
    }
}

/// Position `(x, y)` inside a `width * height` grid has a row-major index
/// inside the pixel sequence.
pub proof fn lemma_index_in_bounds(x: int, y: int, width: int, height: int)
    requires
        0 <= x < width,
        0 <= y < height,
    ensures
        0 <= y * width + x < width * height,
{
    assert(y * width >= 0) by (nonlinear_arith)
        requires
            y >= 0,
            width >= 0,
    ;
    assert((y + 1) * width <= height * width) by (nonlinear_arith)
        requires
            y + 1 <= height,
            width >= 0,
    ;
    assert((y + 1) * width == y * width + width) by (nonlinear_arith);
    assert(height * width == width * height) by (nonlinear_arith);
}

/// A framebuffer of 24-bit pixels.
#[derive(Debug)]
pub struct RgbImage {
    width: u32,
    height: u32,
    data: Vec<Rgb>,
}

impl View for RgbImage {
    type V = Frame;

    closed spec fn view(&self) -> Frame {
        Frame { width: self.width as nat, height: self.height as nat, pixels: self.data@ }
    }
}

impl RgbImage {
    #[verifier::type_invariant]
    pub closed spec fn inv(&self) -> bool {
        self.data@.len() == self.width * self.height
    }

    /// A black image of the given extent.
    pub fn new(width: u32, height: u32) -> (img: RgbImage)
        requires
            width * height <= usize::MAX,
        ensures
            img@ == Frame::blank(width as nat, height as nat),
    {
        let n: usize = (width as usize) * (height as usize);
        let black = Rgb { r: 0, g: 0, b: 0 };
        let data = vec![black; n];
        let img = RgbImage { width, height, data };
        assert(img@.pixels =~= Frame::blank(width as nat, height as nat).pixels);
        img
    }

    pub fn width(&self) -> (w: u32)
        ensures
            w == self@.width,
            self@.wf(),
    {
        proof {
            use_type_invariant(self);
        }
        self.width
    }

    pub fn height(&self) -> (h: u32)
        ensures
            h == self@.height,
            self@.wf(),
    {
        proof {
            use_type_invariant(self);
        }
        self.height
    }

    /// The pixel in column `x` of pixel row `y`.
    pub fn get_pixel(&self, x: u32, y: u32) -> (c: Rgb)
        requires
            x < self@.width,
            y < self@.height,
        ensures
            c == self@.at(x as int, y as int),
    {
        proof {
            use_type_invariant(self);
            lemma_index_in_bounds(x as int, y as int, self.width as int, self.height as int);
            assert(self.data.len() == self.width * self.height);
        }
        let i: usize = (y as usize) * (self.width as usize) + (x as usize);
        self.data[i]
    }

    /// Replaces the pixel in column `x` of pixel row `y`.
    pub fn put_pixel(&mut self, x: u32, y: u32, c: Rgb)
        requires
            x < old(self)@.width,
            y < old(self)@.height,
        ensures
            final(self)@.width == old(self)@.width,
            final(self)@.height == old(self)@.height,
            final(self)@.pixels == old(self)@.pixels.update(y * old(self)@.width + x, c),
    {
        proof {
            use_type_invariant(&*self);
            lemma_index_in_bounds(x as int, y as int, self.width as int, self.height as int);
            assert(self.data.len() == self.width * self.height);
        }
        let i: usize = (y as usize) * (self.width as usize) + (x as usize);
        self.data[i] = c;
    }
}

/// The mathematical content of an indexed image: `width * height` palette
/// indices, row by row, and the palette that the image came with.
pub struct IndexedView {
    pub width: nat,
    pub height: nat,
    pub cells: Seq<u8>,
    pub palette: Seq<Rgb>,
}

/// The column that column `x` of an image `width` columns wide changes
/// places with in a column swap: its mirror image inside its group of eight
/// columns. A last group of fewer than eight columns stays as it is.
pub open spec fn swapped_column(x: int, width: int) -> int {
    if x / 8 * 8 + 8 <= width {
        x / 8 * 8 + (7 - x % 8)
    } else {
        x
    }
}

impl IndexedView {
    /// The index sequence has exactly one entry per grid position.
    pub open spec fn wf(self) -> bool {
        self.cells.len() == self.width * self.height
    }

    /// The palette index in column `x` of pixel row `y`.
    pub open spec fn at(self, x: int, y: int) -> u8 {
        self.cells[y * self.width + x]
    }

    /// The framebuffer that shows this image with the colors of `palette`.
    pub open spec fn composed(self, palette: Seq<Rgb>) -> Frame {
        Frame {
            width: self.width,
            height: self.height,
            pixels: Seq::new(self.cells.len(), |i: int| palette[self.cells[i] as int]),
        }
    }

    /// The part of this image that starts in column `x` of pixel row `y` and
    /// is at most `w` columns wide and `h` rows high: what of that rectangle
    /// lies inside the image.
    pub open spec fn rect(self, x: int, y: int, w: int, h: int) -> IndexedView {
        let x0 = if x < self.width {
            x
        } else {
            self.width as int
        };
        let y0 = if y < self.height {
            y
        } else {
            self.height as int
        };
        let cw = if w < self.width - x0 {
            w
        } else {
            self.width - x0
        };
        let ch = if h < self.height - y0 {
            h
        } else {
            self.height - y0
        };
        IndexedView {
            width: cw as nat,
            height: ch as nat,
            cells: Seq::new(
                (cw * ch) as nat,
                |i: int| self.cells[(y0 + i / cw) * self.width + x0 + i % cw],
            ),
            palette: self.palette,
        }
    }

    /// This image with the columns of every full group of eight mirrored.
    pub open spec fn column_swapped(self) -> IndexedView {
        IndexedView {
            cells: Seq::new(
                self.cells.len(),
                |i: int|
                    self.cells[i / (self.width as int) * self.width + swapped_column(
                        i % (self.width as int),
                        self.width as int,
                    )],
            ),
            ..self
        }
    }
}

/// A column and its swap partner lie in the same group, and the partner's
/// partner is the column itself.
pub proof fn lemma_swapped_column(x: int, width: int)
    requires
        0 <= x < width,
    ensures
        0 <= swapped_column(x, width) < width,
        swapped_column(swapped_column(x, width), width) == x,
{
    let g = x / 8;
    if g * 8 + 8 <= width {
        let s = g * 8 + (7 - x % 8);
        assert(s / 8 == g && s % 8 == 7 - x % 8) by {
            lemma_fundamental_div_mod_converse(s, 8, g, 7 - x % 8);
        }
    }
}

/// The offset `y * width + x` splits back into `y` and `x`.
pub proof fn lemma_split_index(x: int, y: int, width: int)
    requires
        0 <= x < width,
        0 <= y,
    ensures
        (y * width + x) / width == y,
        (y * width + x) % width == x,
{
    assert(y * width == width * y) by (nonlinear_arith);
    lemma_fundamental_div_mod_converse(y * width + x, width, y, x);
}

/// Swapping the columns twice gives the image back.
pub proof fn lemma_column_swap_twice(g: IndexedView)
    requires
        g.wf(),
    ensures
        g.column_swapped().column_swapped() == g,
{
    let once = g.column_swapped();
    let twice = once.column_swapped();
    let w = g.width as int;
    assert forall|i: int| 0 <= i < g.cells.len() implies twice.cells[i] == g.cells[i] by {
        assert(w > 0) by (nonlinear_arith)
            requires
                0 <= i < w * g.height,
                w >= 0,
        ;
        let y = i / w;
        let x = i % w;
        lemma_fundamental_div_mod(i, w);
        assert(w * y == y * w) by (nonlinear_arith);
        assert(0 <= x < w);
        assert(0 <= y < g.height) by (nonlinear_arith)
            requires
                0 <= i < w * g.height,
                i == w * y + x,
                0 <= x < w,
        ;
        lemma_swapped_column(x, w);
        let sx = swapped_column(x, w);
        lemma_index_in_bounds(sx, y, w, g.height as int);
        lemma_split_index(sx, y, w);
    }
    assert(twice.cells =~= g.cells);
}

/// A grid of palette indices together with a palette.
#[derive(Debug)]
pub struct IndexedImage {
    width: u32,
    height: u32,
    data: Vec<u8>,
    palette: Palette,
}

impl View for IndexedImage {
    type V = IndexedView;

    closed spec fn view(&self) -> IndexedView {
        IndexedView {
            width: self.width as nat,
            height: self.height as nat,
            cells: self.data@,
            palette: self.palette@,
        }
    }
}

impl IndexedImage {
    #[verifier::type_invariant]
    pub closed spec fn inv(&self) -> bool {
        self.data@.len() == self.width * self.height
    }

    /// An image of the given extent with every pixel at index 0.
    pub fn new(width: u32, height: u32, palette: Palette) -> (img: IndexedImage)
        requires
            width * height <= usize::MAX,
        ensures
            img@ == (IndexedView {
                width: width as nat,
                height: height as nat,
                cells: Seq::new((width * height) as nat, |i: int| 0u8),
                palette: palette@,
            }),
    {
        let n: usize = (width as usize) * (height as usize);
        let data = vec![0u8; n];
        let img = IndexedImage { width, height, data, palette };
        assert(img@.cells =~= Seq::new((width * height) as nat, |i: int| 0u8));
        img
    }

    /// An image of the given extent with the given indices, row by row.
    /// `None` if `data` does not hold exactly one index per pixel.
    pub fn from_indices(width: u32, height: u32, data: Vec<u8>, palette: Palette) -> (img: Option<
        IndexedImage,
    >)
        ensures
            img is Some <==> data@.len() == width * height,
            img matches Some(i) ==> i@ == (IndexedView {
                width: width as nat,
                height: height as nat,
                cells: data@,
                palette: palette@,
            }),
    {
        proof {
            assert(0 <= width * height <= 0xffff_ffff * 0xffff_ffff) by (nonlinear_arith)
                requires
                    0 <= width <= 0xffff_ffff,
                    0 <= height <= 0xffff_ffff,
            ;
        }
        let n: u64 = (width as u64) * (height as u64);
        if data.len() as u64 == n {
            Some(IndexedImage { width, height, data, palette })
        } else {
            None
        }
    }

    pub fn width(&self) -> (w: u32)
        ensures
            w == self@.width,
            self@.wf(),
    {
        proof {
            use_type_invariant(self);
        }
        self.width
    }

    pub fn height(&self) -> (h: u32)
        ensures
            h == self@.height,
            self@.wf(),
    {
        proof {
            use_type_invariant(self);
        }
        self.height
    }

    /// A black framebuffer of this image's extent.
    pub fn blank_frame(&self) -> (f: RgbImage)
        ensures
            f@ == Frame::blank(self@.width, self@.height),
    {
        proof {
            use_type_invariant(self);
            assert(self.data.len() == self.width * self.height);
        }
        RgbImage::new(self.width, self.height)
    }

    /// The palette that the image came with.
    pub fn palette(&self) -> (p: &Palette)
        ensures
            p@ == self@.palette,
    {
        &self.palette
    }

    /// The palette index in column `x` of pixel row `y`.
    pub fn get_index(&self, x: u32, y: u32) -> (i: u8)
        requires
            x < self@.width,
            y < self@.height,
        ensures
            i == self@.at(x as int, y as int),
    {
        proof {
            use_type_invariant(self);
            lemma_index_in_bounds(x as int, y as int, self.width as int, self.height as int);
            assert(self.data.len() == self.width * self.height);
        }
        self.data[(y as usize) * (self.width as usize) + (x as usize)]
    }

    /// The part of this image that starts in column `x` of pixel row `y` and
    /// is at most `width` columns wide and `height` rows high, with the same
    /// palette.
    pub fn get_rect(&self, x: u32, y: u32, width: u32, height: u32) -> (part: IndexedImage)
        ensures
            part@ == self@.rect(x as int, y as int, width as int, height as int),
    {
        proof {
            use_type_invariant(self);
            assert(self.data.len() == self.width * self.height);
        }
        let x0: u32 = if x < self.width {
            x
        } else {
            self.width
        };
        let y0: u32 = if y < self.height {
            y
        } else {
            self.height
        };
        let cw: u32 = if width < self.width - x0 {
            width
        } else {
            self.width - x0
        };
        let ch: u32 = if height < self.height - y0 {
            height
        } else {
            self.height - y0
        };
        let ghost want = self@.rect(x as int, y as int, width as int, height as int);
        let mut data: Vec<u8> = Vec::new();
        let mut j: u32 = 0;
        while j < ch
            invariant
                j <= ch,
                self.inv(),
                self.data.len() == self.width * self.height,
                x0 + cw <= self.width,
                y0 + ch <= self.height,
                data@.len() == j * cw,
                forall|k: int| 0 <= k < data@.len() ==> data@[k] == want.cells[k],
                want.width == cw,
                want.height == ch,
                want.cells.len() == cw * ch,
                forall|k: int|
                    0 <= k < cw * ch ==> want.cells[k] == self.data@[(y0 + k / (cw as int))
                        * self.width + x0 + k % (cw as int)],
            decreases ch - j,
        {
            let mut i: u32 = 0;
            while i < cw
                invariant
                    i <= cw,
                    j < ch,
                    self.inv(),
                    self.data.len() == self.width * self.height,
                    x0 + cw <= self.width,
                    y0 + ch <= self.height,
                    data@.len() == j * cw + i,
                    forall|k: int| 0 <= k < data@.len() ==> data@[k] == want.cells[k],
                    want.width == cw,
                    want.height == ch,
                    want.cells.len() == cw * ch,
                    forall|k: int|
                        0 <= k < cw * ch ==> want.cells[k] == self.data@[(y0 + k / (cw as int))
                            * self.width + x0 + k % (cw as int)],
                decreases cw - i,
            {
                proof {
                    lemma_index_in_bounds(
                        (x0 + i) as int,
                        (y0 + j) as int,
                        self.width as int,
                        self.height as int,
                    );
                    lemma_split_index(i as int, j as int, cw as int);
                    lemma_index_in_bounds(i as int, j as int, cw as int, ch as int);
                }
                let v = self.data[((y0 + j) as usize) * (self.width as usize) + ((x0 + i) as usize)];
                data.push(v);
                i += 1;
            }
            proof {
                assert(j * cw + cw == (j + 1) * cw) by (nonlinear_arith);
            }
            j += 1;
        }
        proof {
            assert(ch * cw == cw * ch) by (nonlinear_arith);
            assert(data@ =~= want.cells);
        }
        IndexedImage { width: cw, height: ch, data, palette: self.palette.clone() }
    }

    /// Makes this image the part of `src` that starts in column `x` of pixel
    /// row `y` and is at most `width` columns wide and `height` rows high.
    pub fn get_rect_from(&mut self, x: u32, y: u32, width: u32, height: u32, src: &IndexedImage)
        ensures
            final(self)@ == src@.rect(x as int, y as int, width as int, height as int),
    {
        *self = src.get_rect(x, y, width, height);
    }

    /// Mirrors the columns of every full group of eight columns.
    pub fn column_swap(&mut self)
        ensures
            final(self)@ == old(self)@.column_swapped(),
    {
        proof {
            use_type_invariant(&*self);
            assert(self.data.len() == self.width * self.height);
        }
        let w = self.width;
        let h = self.height;
        let ghost want = self@.column_swapped();
        let mut data: Vec<u8> = Vec::new();
        let mut y: u32 = 0;
        while y < h
            invariant
                y <= h,
                self.inv(),
                w == self.width,
                h == self.height,
                self.data.len() == w * h,
                data@.len() == y * w,
                want == self@.column_swapped(),
                forall|k: int| 0 <= k < data@.len() ==> data@[k] == want.cells[k],
            decreases h - y,
        {
            let mut x: u32 = 0;
            while x < w
                invariant
                    x <= w,
                    y < h,
                    self.inv(),
                    w == self.width,
                    h == self.height,
                    self.data.len() == w * h,
                    data@.len() == y * w + x,
                    want == self@.column_swapped(),
                    forall|k: int| 0 <= k < data@.len() ==> data@[k] == want.cells[k],
                decreases w - x,
            {
                let group: u32 = x / 8 * 8;
                let sx: u32 = if w >= 8 && group <= w - 8 {
                    group + (7 - x % 8)
                } else {
                    x
                };
                proof {
                    lemma_swapped_column(x as int, w as int);
                    assert(sx == swapped_column(x as int, w as int));
                    lemma_index_in_bounds(sx as int, y as int, w as int, h as int);
                    lemma_index_in_bounds(x as int, y as int, w as int, h as int);
                    lemma_split_index(x as int, y as int, w as int);
                }
                let v = self.data[(y as usize) * (w as usize) + (sx as usize)];
                data.push(v);
                x += 1;
            }
            proof {
                assert(y * w + w == (y + 1) * w) by (nonlinear_arith);
            }
            y += 1;
        }
        proof {
            assert(h * w == w * h) by (nonlinear_arith);
            assert(data@ =~= want.cells);
        }
        self.data = data;
    }

    /// Shows this image in `frame` with the colors of `palette`: the frame
    /// gets the image's extent, and each pixel the palette's color for the
    /// pixel's index.
    pub fn apply_with_palette(&self, frame: &mut RgbImage, palette: &Palette)
        ensures
            final(frame)@ == self@.composed(palette@),
    {
        proof {
            use_type_invariant(self);
            use_type_invariant(&*frame);
            assert(self.data.len() == self.width * self.height);
        }
        if frame.width != self.width || frame.height != self.height {
            *frame = RgbImage::new(self.width, self.height);
        }
        proof {
            use_type_invariant(&*frame);
        }
        let n = self.data.len();
        let mut i: usize = 0;
        while i < n
            invariant
                i <= n,
                n == self.data@.len(),
                frame.width == self.width,
                frame.height == self.height,
                frame.inv(),
                frame.data@.len() == n,
                forall|k: int| 0 <= k < i ==> frame.data@[k] == palette@[self.data@[k] as int],
            decreases n - i,
        {
            let c = palette.get(self.data[i]);
            frame.data[i] = c;
            i += 1;
        }
        assert(frame@.pixels =~= self@.composed(palette@).pixels);
    }
}


} // verus!
