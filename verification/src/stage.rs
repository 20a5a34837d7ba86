//! The frame pipeline: from the world and the viewport to the text that
//! brings the terminal up to date.

use vstd::prelude::*;
use crate::ansi::encode_all;
use crate::color::Rgb;
use crate::error::Error;
use crate::image::{Frame, IndexedImage, IndexedView, RgbImage};
use crate::image_to_ansi::{
    changed, diff_ops, image_to_ansi_into, redraw_ops, simple_image_to_ansi_into,
};
use crate::palette::Palette;
use crate::palette::{ColorCycle, PALETTE_SIZE};
use crate::playback::{center, centered, Controls, Extents, FrameStart, MESSAGE_DISPLAY_DURATION};
use crate::screen::{cell_shown, diff_ready, Screen};
use crate::status::{
    bottom_row, cursor_to, empty_image_message, empty_image_text, failed_message, failed_text,
    opened_message, opened_text, push_cursor_to, push_margins, Banner, Margins,
};
use crate::world::{active_palette, CycleImage, LivingWorld, PaletteCycles, TimelineEvent};

verus! {

/// What a frame is drawn with.
#[derive(Clone, Copy, Debug, PartialEq, Eq, Structural)]
pub struct Shot {
    /// Horizontal offset of the viewport in the image.
    pub x: u32,
    /// Vertical offset of the viewport in the image.
    pub y: u32,
    /// Columns left of the image where it is narrower than the terminal.
    pub viewport_x: u32,
    /// Pixel rows above the image where it is lower than the terminal.
    pub viewport_y: u32,
    /// Width of the drawing area.
    pub term_width: u32,
    /// Height of the drawing area.
    pub term_height: u32,
    /// The simulated time of day.
    pub time_of_day: u64,
    /// Milliseconds of playback so far.
    pub elapsed_ms: u64,
    /// Cross-fade the steps of color cycles.
    pub blend: bool,
    /// The terminal's bottom row holds something other than the image and is
    /// to be written anew.
    pub restore: bool,
}

/// A world on show: the part of its image that is visible, the frame being
/// drawn, the frame that the terminal shows, and the drawing area that it
/// was drawn for.
#[derive(Debug)]
pub struct Stage {
    pub world: LivingWorld,
    pub viewport: IndexedImage,
    pub frame: RgbImage,
    pub prev_frame: RgbImage,
    /// Width of the drawing area of the frame before.
    pub term_width: u32,
    /// Height of the drawing area of the frame before.
    pub term_height: u32,
}

/// The smaller of two extents.
pub open spec fn lesser(a: int, b: int) -> int {
    if a < b {
        a
    } else {
        b
    }
}

/// A color that differs from `c`.
pub open spec fn unlike(c: Rgb) -> Rgb {
    Rgb {
        r: if c.r == 0 {
            1
        } else {
            0
        },
        ..c
    }
}

/// The frame `prev` with the upper pixels of the first `upto` cells of text
/// row `row` made to differ from those of `shown`, so that an update writes
/// these cells.
pub open spec fn marked(prev: Frame, shown: Frame, row: int, upto: int) -> Frame
    decreases upto,
{
    if upto <= 0 {
        prev
    } else {
        let before = marked(prev, shown, row, upto - 1);
        Frame {
            pixels: before.pixels.update(
                2 * row * prev.width + (upto - 1),
                unlike(shown.at(upto - 1, 2 * row)),
            ),
            ..before
        }
    }
}

/// The text row of the image that lies in the terminal's bottom row, if one
/// does, for an image `height` pixels high.
pub open spec fn covered_row(v: Shot, height: nat) -> Option<int> {
    let row = bottom_row(v.term_height as nat) - (v.viewport_y / 2 + 1);
    if 0 <= row < (height + 1) / 2 {
        Some(row)
    } else {
        None
    }
}

/// The text that blacks out the text row `row`, counted from one.
pub open spec fn restore_text(row: nat) -> Seq<char> {
    cursor_to(row, 1) + "\x1B[38;2;0;0;0m\x1B[48;2;0;0;0m\x1B[2K"@
}

/// The frame that the terminal is taken to show before a frame is drawn:
/// all black after the drawing area changed; else the frame drawn before,
/// with the cells in the terminal's bottom row marked where that row is to
/// be written anew.
pub open spec fn baseline(prev: Frame, shown: Frame, v: Shot, resized: bool) -> Frame {
    if resized {
        Frame::blank(shown.width, shown.height)
    } else if v.restore {
        match covered_row(v, shown.height) {
            Some(row) => marked(prev, shown, row, shown.width as int),
            None => prev,
        }
    } else {
        prev
    }
}

/// Where the image lies in the drawing area.
pub open spec fn margins_of(part: IndexedView, v: Shot) -> Margins {
    Margins {
        x: v.viewport_x,
        y: v.viewport_y,
        width: part.width as u32,
        height: part.height as u32,
        term_width: v.term_width,
        term_height: v.term_height,
    }
}

/// The text of a frame. After a change of the drawing area the margins are
/// cleared and the image is written in full. Else the terminal's bottom row
/// is blacked out where it is to be written anew, and the image is written
/// as the difference to the frame before. In both cases the cursor is put on
/// the image's first cell before the image.
pub open spec fn frame_text(
    before: Frame,
    shown: Frame,
    part: IndexedView,
    v: Shot,
    resized: bool,
) -> Seq<char> {
    (if resized {
        margins_of(part, v).text()
    } else if v.restore {
        restore_text(bottom_row(v.term_height as nat))
    } else {
        Seq::empty()
    }) + cursor_to((v.viewport_y / 2 + 1) as nat, (v.viewport_x + 1) as nat) + encode_all(
        if resized {
            redraw_ops(shown)
        } else {
            diff_ops(before, shown, part.width >= v.term_width)
        },
    )
}

/// The viewport at offset `x`, `y` shows as much of an image `width` by
/// `height` as a drawing area `term_width` by `term_height` holds.
pub open spec fn placed(v: Shot, width: nat, height: nat) -> bool {
    &&& v.x + v.term_width <= width || v.x == 0
    &&& v.y + v.term_height <= height || v.y == 0
}

/// What the stage is after a frame was drawn with `v`: the visible part of
/// `image` is on show, the recorded frame is that part in the colors
/// `colors`, the other frame is the baseline that it was written against,
/// and the drawing area is recorded. `prev` is the frame recorded before.
pub open spec fn stage_drawn(
    image: IndexedView,
    colors: Seq<Rgb>,
    prev: Frame,
    resized: bool,
    after: Stage,
    v: Shot,
) -> bool {
    let part = image.rect(v.x as int, v.y as int, v.term_width as int, v.term_height as int);
    &&& after.viewport@ == part
    &&& after.prev_frame@ == part.composed(colors)
    &&& after.frame@ == baseline(prev, part.composed(colors), v, resized)
    &&& after.term_width == v.term_width
    &&& after.term_height == v.term_height
}

/// Marking keeps a frame's extent.
pub proof fn lemma_marked_extent(prev: Frame, shown: Frame, row: int, upto: int)
    ensures
        marked(prev, shown, row, upto).width == prev.width,
        marked(prev, shown, row, upto).height == prev.height,
    decreases upto,
{
    if upto > 0 {
        lemma_marked_extent(prev, shown, row, upto - 1);
    }
}

/// The upper pixels of a marked row differ from the image's, so every cell
/// of the row counts as changed; all other pixels are as they were.
pub proof fn lemma_marked(prev: Frame, shown: Frame, row: int, upto: int, x: int, y: int)
    requires
        prev.wf(),
        prev.width == shown.width,
        prev.height == shown.height,
        0 <= row,
        2 * row < prev.height,
        0 <= upto <= prev.width,
        0 <= x < prev.width,
        0 <= y < prev.height,
    ensures
        marked(prev, shown, row, upto).width == prev.width,
        marked(prev, shown, row, upto).height == prev.height,
        marked(prev, shown, row, upto).pixels.len() == prev.pixels.len(),
        marked(prev, shown, row, upto).at(x, y) == if y == 2 * row && x < upto {
            unlike(shown.at(x, y))
        } else {
            prev.at(x, y)
        },
    decreases upto,
{
    if upto > 0 {
        lemma_marked(prev, shown, row, upto - 1, x, y);
        let w = prev.width as int;
        crate::image::lemma_index_in_bounds(upto - 1, 2 * row, w, prev.height as int);
        crate::image::lemma_index_in_bounds(x, y, w, prev.height as int);
        if y * w + x == 2 * row * w + (upto - 1) {
            crate::image::lemma_split_index(x, y, w);
            crate::image::lemma_split_index(upto - 1, 2 * row, w);
        }
    }
}

/// After a frame was marked for the text row `row`, an update writes every
/// cell of that row.
pub proof fn lemma_marked_row_changed(prev: Frame, shown: Frame, row: int, x: int)
    requires
        prev.wf(),
        prev.width == shown.width,
        prev.height == shown.height,
        0 <= row,
        2 * row < prev.height,
        0 <= x < prev.width,
    ensures
        changed(marked(prev, shown, row, prev.width as int), shown, x, row),
{
    lemma_marked(prev, shown, row, prev.width as int, x, 2 * row);
}

/// Marking a text row keeps what the differential renderer counts on, on
/// any screen: the cells of the marked row are all written, and for every
/// other cell nothing changes. So a screen whose bottom row holds a message,
/// and which shows the frame before everywhere else, is brought up to date by
/// the update against the marked frame.
pub proof fn lemma_marked_ready(
    s: Screen,
    prev: Frame,
    shown: Frame,
    row: int,
    full_width: bool,
    ox: int,
    oy: int,
)
    requires
        prev.wf(),
        prev.width == shown.width,
        prev.height == shown.height,
        0 <= row < shown.rows(),
        0 <= ox,
        0 <= oy,
        ox + shown.width <= s.cols,
        oy + shown.rows() <= s.lines,
        full_width <==> ox + shown.width == s.cols,
        forall|x: int, r: int|
            0 <= x < shown.width && 0 <= r < shown.rows() && r != row && !changed(
                prev,
                shown,
                x,
                r,
            ) ==> #[trigger] cell_shown(s, shown, ox, oy, x, r),
    ensures
        diff_ready(s, marked(prev, shown, row, shown.width as int), shown, full_width, ox, oy),
{
    let m = marked(prev, shown, row, shown.width as int);
    lemma_marked_extent(prev, shown, row, shown.width as int);
    assert forall|x: int, r: int|
        0 <= x < shown.width && 0 <= r < shown.rows() && !changed(
            m,
            shown,
            x,
            r,
        ) implies #[trigger] cell_shown(s, shown, ox, oy, x, r) by {
        if r == row {
            lemma_marked_row_changed(prev, shown, row, x);
        } else {
            lemma_marked(prev, shown, row, shown.width as int, x, 2 * r);
            if 2 * r + 1 < shown.height {
                lemma_marked(prev, shown, row, shown.width as int, x, 2 * r + 1);
            }
        }
    }
}

impl Stage {
    /// The stage is in order: the world is well formed, the viewport is as
    /// large as the drawing area lets it be, and the recorded frame has the
    /// viewport's extent.
    pub open spec fn valid(self) -> bool {
        let image = self.world.base_view().image_view();
        &&& self.world.wf()
        &&& self.viewport@.width == lesser(self.term_width as int, image.width as int)
        &&& self.viewport@.height == lesser(self.term_height as int, image.height as int)
        &&& self.prev_frame@.width == self.viewport@.width
        &&& self.prev_frame@.height == self.viewport@.height
    }

    /// Puts a world on show in a drawing area of the given extent: the
    /// viewport starts out in the middle of the image, and both frames are
    /// black.
    pub fn new(world: LivingWorld, term_width: u32, term_height: u32) -> (stage: Stage)
        requires
            world.wf(),
        ensures
            stage.valid(),
            stage.world == world,
            stage.term_width == term_width,
            stage.term_height == term_height,
            stage.viewport@ == world.base_view().image_view().rect(
                centered(world.base_view().image_view().width as int, term_width as int),
                centered(world.base_view().image_view().height as int, term_height as int),
                term_width as int,
                term_height as int,
            ),
            stage.frame@ == Frame::blank(stage.viewport@.width, stage.viewport@.height),
            stage.prev_frame@ == Frame::blank(stage.viewport@.width, stage.viewport@.height),
    {
        let x = center(world.base().width(), term_width);
        let y = center(world.base().height(), term_height);
        let viewport = world.base().indexed_image().get_rect(x, y, term_width, term_height);
        let frame = viewport.blank_frame();
        let prev_frame = viewport.blank_frame();
        Stage { world, viewport, frame, prev_frame, term_width, term_height }
    }

    /// Marks the cells of the text row `row` in the recorded frame, so that
    /// the update to `self.frame` writes them.
    fn mark_row(&mut self, row: u32)
        requires
            old(self).prev_frame@.width == old(self).frame@.width,
            old(self).prev_frame@.height == old(self).frame@.height,
            2 * row < old(self).frame@.height,
        ensures
            final(self).prev_frame@ == marked(
                old(self).prev_frame@,
                old(self).frame@,
                row as int,
                old(self).frame@.width as int,
            ),
            final(self).prev_frame@.width == old(self).prev_frame@.width,
            final(self).prev_frame@.height == old(self).prev_frame@.height,
            final(self).frame == old(self).frame,
            final(self).world == old(self).world,
            final(self).viewport == old(self).viewport,
            final(self).term_width == old(self).term_width,
            final(self).term_height == old(self).term_height,
    {
        let width = self.frame.width();
        let height = self.frame.height();
        let y: u32 = 2 * row;
        let ghost prev = self.prev_frame@;
        let ghost shown = self.frame@;
        let mut x: u32 = 0;
        while x < width
            invariant
                x <= width,
                width == shown.width,
                shown == self.frame@,
                prev.width == shown.width,
                prev.height == shown.height,
                y == 2 * row,
                y < shown.height,
                self.prev_frame@.width == prev.width,
                self.prev_frame@.height == prev.height,
                self.prev_frame@ == marked(prev, shown, row as int, x as int),
                self.frame == old(self).frame,
                self.world == old(self).world,
                self.viewport == old(self).viewport,
                self.term_width == old(self).term_width,
                self.term_height == old(self).term_height,
            decreases width - x,
        {
            let c = self.frame.get_pixel(x, y);
            let other = Rgb {
                r: if c.r == 0 {
                    1
                } else {
                    0
                },
                g: c.g,
                b: c.b,
            };
            self.prev_frame.put_pixel(x, y, other);
            x += 1;
        }
    }

    /// Draws one frame and appends its text to `out`.
    ///
    /// The visible part of the image is colored with the palette that the
    /// world shows at this time. It is written in full if, and only if, the
    /// drawing area differs from that of the frame before; else as the
    /// difference to that frame. Afterwards this frame is the recorded one.
    pub fn draw(&mut self, v: Shot, out: &mut String)
        requires
            old(self).valid(),
            placed(
                v,
                old(self).world.base_view().image_view().width,
                old(self).world.base_view().image_view().height,
            ),
        ensures
            final(self).valid(),
            final(self).world == old(self).world,
            stage_drawn(
                old(self).world.base_view().image_view(),
                active_palette(old(self).world, v.time_of_day as int, v.elapsed_ms as int, v.blend),
                old(self).prev_frame@,
                old(self).term_width != v.term_width || old(self).term_height != v.term_height,
                *final(self),
                v,
            ),
            final(out)@ == old(out)@ + frame_text(
                final(self).frame@,
                final(self).prev_frame@,
                final(self).viewport@,
                v,
                old(self).term_width != v.term_width || old(self).term_height != v.term_height,
            ),
    {
        let ghost text_before = out@;
        let ghost image = self.world.base_view().image_view();
        let resized = self.term_width != v.term_width || self.term_height != v.term_height;
        self.viewport.get_rect_from(
            v.x,
            v.y,
            v.term_width,
            v.term_height,
            self.world.base().indexed_image(),
        );
        let width = self.viewport.width();
        let height = self.viewport.height();
        assert(width == lesser(v.term_width as int, image.width as int));
        assert(height == lesser(v.term_height as int, image.height as int));
        let mut palette = Palette::new();
        self.world.palette_at(v.time_of_day, v.elapsed_ms, v.blend, &mut palette);
        self.viewport.apply_with_palette(&mut self.frame, &palette);
        let ghost shown = self.frame@;
        let ghost prev = self.prev_frame@;

        let full_width = width >= v.term_width;
        let mut linebuf = String::new();
        if resized {
            self.prev_frame = self.viewport.blank_frame();
            let m = Margins {
                x: v.viewport_x,
                y: v.viewport_y,
                width,
                height,
                term_width: v.term_width,
                term_height: v.term_height,
            };
            push_margins(out, m);
            simple_image_to_ansi_into(&self.frame, &mut linebuf);
        } else {
            if v.restore {
                let bottom: u64 = v.term_height as u64 / 2 + v.term_height as u64 % 2;
                let first: u64 = v.viewport_y as u64 / 2 + 1;
                let rows: u64 = height as u64 / 2 + height as u64 % 2;
                push_cursor_to(out, bottom, 1);
                out.push_str("\x1B[38;2;0;0;0m\x1B[48;2;0;0;0m\x1B[2K");
                if bottom >= first && bottom - first < rows {
                    self.mark_row((bottom - first) as u32);
                }
                assert(out@ =~= text_before + restore_text(bottom_row(v.term_height as nat)));
            }
            assert(self.prev_frame@ == baseline(prev, shown, v, false));
            image_to_ansi_into(&self.prev_frame, &self.frame, full_width, &mut linebuf);
        }
        let ghost text_lead = out@;
        push_cursor_to(out, v.viewport_y as u64 / 2 + 1, v.viewport_x as u64 + 1);
        out.push_str(linebuf.as_str());
        std::mem::swap(&mut self.frame, &mut self.prev_frame);
        self.term_width = v.term_width;
        self.term_height = v.term_height;
        proof {
            let part = self.viewport@;
            assert(text_lead =~= text_before + (if resized {
                margins_of(part, v).text()
            } else if v.restore {
                restore_text(bottom_row(v.term_height as nat))
            } else {
                Seq::empty()
            }));
            assert(out@ =~= text_before + frame_text(
                self.frame@,
                self.prev_frame@,
                part,
                v,
                resized,
            ));
        }
    }
}

/// Width of the image that stands in for a file that cannot be shown.
pub const PLACEHOLDER_WIDTH: u32 = 80;

/// Height of the image that stands in for a file that cannot be shown.
pub const PLACEHOLDER_HEIGHT: u32 = 25;

/// The world is the one that stands in for a file that cannot be shown: a
/// black image without a name, cycles or timeline.
pub open spec fn is_placeholder(world: LivingWorld) -> bool {
    &&& world.wf()
    &&& world.base_view().name_view() is None
    &&& world.base_view().cycles_view() == Seq::<ColorCycle>::empty()
    &&& world.base_view().image_view() == (IndexedView {
        width: PLACEHOLDER_WIDTH as nat,
        height: PLACEHOLDER_HEIGHT as nat,
        cells: Seq::new((PLACEHOLDER_WIDTH * PLACEHOLDER_HEIGHT) as nat, |i: int| 0u8),
        palette: Seq::new(PALETTE_SIZE as nat, |i: int| Rgb::black()),
    })
    &&& world.timeline_view() == Seq::<TimelineEvent>::empty()
    &&& world.palettes_view() == Seq::<PaletteCycles>::empty()
}

/// The world that stands in for a file that cannot be shown.
pub fn placeholder_world() -> (world: LivingWorld)
    ensures
        is_placeholder(world),
{
    let image = IndexedImage::new(PLACEHOLDER_WIDTH, PLACEHOLDER_HEIGHT, Palette::new());
    LivingWorld::from_image(CycleImage::new(None, image, Vec::new()))
}

/// A loaded world can be shown: its image has pixels.
pub open spec fn showable(world: LivingWorld) -> bool {
    world.base_view().image_view().width > 0 && world.base_view().image_view().height > 0
}

/// What is shown for what loading a file gave: `world` is the world on show
/// and `message`, shown until `until`, the status message, where the message
/// before was `old_message`, shown until `old_until`.
///
/// A world whose image has pixels is shown; while status messages are on,
/// the file's name is announced for the usual time from `now` on. For a
/// world without pixels, and for a file that failed to load, the placeholder
/// is shown with a message that says so and stays until another takes its
/// place.
pub open spec fn opened_as(
    loaded: Result<LivingWorld, Error>,
    filename: Seq<char>,
    osd: bool,
    now: u64,
    old_message: Seq<char>,
    old_until: u64,
    world: LivingWorld,
    message: Seq<char>,
    until: u64,
) -> bool {
    match loaded {
        Ok(w) => if showable(w) {
            &&& world == w
            &&& message == if osd {
                opened_text(w.base_view().name_view(), filename)
            } else {
                old_message
            }
            &&& until == if !osd {
                old_until
            } else if now + MESSAGE_DISPLAY_DURATION > u64::MAX {
                u64::MAX
            } else {
                (now + MESSAGE_DISPLAY_DURATION) as u64
            }
        } else {
            &&& is_placeholder(world)
            &&& message == empty_image_text(
                filename,
                w.base_view().image_view().width,
                w.base_view().image_view().height,
            )
            &&& until == u64::MAX
        },
        Err(e) => {
            &&& is_placeholder(world)
            &&& message == failed_text(filename, e@.display())
            &&& until == u64::MAX
        },
    }
}

/// Takes what loading a file gave and decides what is shown.
pub fn open_world(
    loaded: Result<LivingWorld, Error>,
    filename: &str,
    osd: bool,
    now: u64,
    banner: &mut Banner,
) -> (world: LivingWorld)
    requires
        loaded matches Ok(w) ==> w.wf(),
    ensures
        world.wf(),
        final(banner).shown == old(banner).shown,
        opened_as(
            loaded,
            filename@,
            osd,
            now,
            old(banner).message@,
            old(banner).until,
            world,
            final(banner).message@,
            final(banner).until,
        ),
{
    match loaded {
        Ok(w) => {
            let width = w.base().width();
            let height = w.base().height();
            if width == 0 || height == 0 {
                banner.post_error(empty_image_message(filename, width, height));
                placeholder_world()
            } else {
                if osd {
                    let message = opened_message(w.name(), filename);
                    banner.post(message, now);
                }
                w
            }
        },
        Err(e) => {
            banner.post_error(failed_message(filename, &e));
            placeholder_world()
        },
    }
}

/// What a frame is drawn with, after the commands of the frame were applied:
/// the viewport of `after`, the margins of `start`, and the drawing area of
/// `e`.
pub open spec fn shot_of(
    after: Controls,
    start: FrameStart,
    e: Extents,
    time_of_day: u64,
    elapsed_ms: u64,
    restore: bool,
) -> Shot {
    Shot {
        x: after.x,
        y: after.y,
        viewport_x: start.viewport_x,
        viewport_y: start.viewport_y,
        term_width: e.term_width,
        term_height: e.term_height,
        time_of_day,
        elapsed_ms,
        blend: after.blend,
        restore,
    }
}

/// Puts together what a frame is drawn with.
pub fn plan_shot(
    after: Controls,
    start: FrameStart,
    e: Extents,
    time_of_day: u64,
    elapsed_ms: u64,
    restore: bool,
) -> (shot: Shot)
    ensures
        shot == shot_of(after, start, e, time_of_day, elapsed_ms, restore),
{
    Shot {
        x: after.x,
        y: after.y,
        viewport_x: start.viewport_x,
        viewport_y: start.viewport_y,
        term_width: e.term_width,
        term_height: e.term_height,
        time_of_day,
        elapsed_ms,
        blend: after.blend,
        restore,
    }
}

} // verus!
