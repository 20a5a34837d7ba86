//! One frame of a session: the input that has come in is turned into
//! commands and applied, the frame is drawn, and the status message is put
//! over it.

use vstd::prelude::*;
use vstd::string::StrSliceExecFns;
use crate::error::Error;
use crate::image::{Frame, IndexedView};
use crate::input::{decode, decode_step, Decoded, DecoderState};
use crate::playback::{
    apply_command, area_of, begin_frame, center, centered, commanded, current_dimensions,
    extent_from, frame_start, inside, lemma_commands_keep_inside, lemma_viewport_stays_inside,
    notice_message, notice_text, Action, Controls, Extents, Notice, Scene,
    MESSAGE_DISPLAY_DURATION,
};
use crate::stage::{
    frame_text, open_world, opened_as, plan_shot, shot_of, stage_drawn, Shot, Stage,
};
use crate::status::{overlay_step, overlay_text, push_overlay, Banner, OverlayStep};
use crate::world::{active_palette, LivingWorld};

verus! {

/// Where the handling of a frame's input stands.
#[derive(Clone, Copy, Debug, PartialEq, Eq, Structural)]
pub struct InputResult {
    pub controls: Controls,
    pub decoder: DecoderState,
    /// The simulated time of day.
    pub time_of_day: u64,
    /// What playback does next. Once it is to quit or to open a file, no
    /// further input is taken.
    pub action: Action,
    /// The last message that a command gave, if any did.
    pub notice: Option<Notice>,
    /// The image's columns are to be mirrored: the command for it came an
    /// odd number of times.
    pub swap_columns: bool,
    /// How many bytes were taken.
    pub consumed: usize,
}

impl InputResult {
    /// No further input is taken.
    pub open spec fn stopped(self) -> bool {
        self.action is Quit || self.action is Goto
    }
}

/// The state before any input of a frame.
pub open spec fn input_start(c: Controls, decoder: DecoderState, s: Scene) -> InputResult {
    InputResult {
        controls: c,
        decoder,
        time_of_day: s.time_of_day,
        action: Action::Continue,
        notice: None,
        swap_columns: false,
        consumed: 0,
    }
}

/// The state after one more byte, or after the news that none is left.
///
/// A byte that completes a key has its command applied, in the scene `s` at
/// the time that the commands before it have led to. A command to mirror the
/// columns is noted, and playback goes on.
pub open spec fn input_step(r: InputResult, s: Scene, byte: Option<u8>) -> InputResult {
    if r.stopped() {
        r
    } else {
        let (decoder, decoded) = decode_step(r.decoder, byte);
        let consumed = if byte is Some {
            (r.consumed + 1) as usize
        } else {
            r.consumed
        };
        match decoded {
            Decoded::Key(cmd) => {
                let o = commanded(r.controls, Scene { time_of_day: r.time_of_day, ..s }, cmd);
                InputResult {
                    controls: o.controls,
                    decoder,
                    time_of_day: o.time_of_day,
                    action: if o.action is SwapColumns {
                        Action::Continue
                    } else {
                        o.action
                    },
                    notice: if o.notice is Some {
                        o.notice
                    } else {
                        r.notice
                    },
                    swap_columns: r.swap_columns != (o.action is SwapColumns),
                    consumed,
                }
            },
            _ => InputResult { decoder, consumed, ..r },
        }
    }
}

/// The state after the bytes `bytes`, taken in their order.
pub open spec fn input_bytes(start: InputResult, s: Scene, bytes: Seq<u8>) -> InputResult
    decreases bytes.len(),
{
    if bytes.len() == 0 {
        start
    } else {
        input_step(input_bytes(start, s, bytes.drop_last()), s, Some(bytes.last()))
    }
}

/// The state after all input of a frame: the bytes that have come in, and
/// then the news that none is left.
pub open spec fn input_run(c: Controls, decoder: DecoderState, s: Scene, bytes: Seq<u8>) -> InputResult {
    input_step(input_bytes(input_start(c, decoder, s), s, bytes), s, None)
}

fn step(r: InputResult, s: Scene, byte: Option<u8>) -> (next: InputResult)
    requires
        !r.stopped(),
        byte is Some ==> r.consumed < usize::MAX,
    ensures
        next == input_step(r, s, byte),
{
    let (decoder, decoded) = decode(r.decoder, byte);
    let consumed = match byte {
        Some(_) => r.consumed + 1,
        None => r.consumed,
    };
    match decoded {
        Decoded::Key(cmd) => {
            let scene = Scene {
                extents: s.extents,
                file_index: s.file_index,
                file_count: s.file_count,
                time_of_day: r.time_of_day,
                local_ms: s.local_ms,
            };
            let o = apply_command(r.controls, scene, cmd);
            let swap = match o.action {
                Action::SwapColumns => true,
                _ => false,
            };
            InputResult {
                controls: o.controls,
                decoder,
                time_of_day: o.time_of_day,
                action: if swap {
                    Action::Continue
                } else {
                    o.action
                },
                notice: match o.notice {
                    Some(n) => Some(n),
                    None => r.notice,
                },
                swap_columns: r.swap_columns != swap,
                consumed,
            }
        },
        _ => InputResult {
            controls: r.controls,
            decoder,
            time_of_day: r.time_of_day,
            action: r.action,
            notice: r.notice,
            swap_columns: r.swap_columns,
            consumed,
        },
    }
}

fn is_stopped(r: &InputResult) -> (b: bool)
    ensures
        b == r.stopped(),
{
    match r.action {
        Action::Quit => true,
        Action::Goto(_) => true,
        _ => false,
    }
}

/// Once no further input is taken, more bytes change nothing.
pub proof fn lemma_stopped_stays(r: InputResult, s: Scene, bytes: Seq<u8>)
    requires
        r.stopped(),
    ensures
        input_bytes(r, s, bytes) == r,
    decreases bytes.len(),
{
    if bytes.len() > 0 {
        lemma_stopped_stays(r, s, bytes.drop_last());
    }
}

/// Taking bytes one run after another is taking them all.
pub proof fn lemma_input_bytes_split(start: InputResult, s: Scene, a: Seq<u8>, b: Seq<u8>)
    ensures
        input_bytes(start, s, a + b) == input_bytes(input_bytes(start, s, a), s, b),
    decreases b.len(),
{
    if b.len() == 0 {
        assert(a + b =~= a);
    } else {
        lemma_input_bytes_split(start, s, a, b.drop_last());
        assert((a + b).drop_last() =~= a + b.drop_last());
        assert((a + b).last() == b.last());
    }
}

/// A command to mirror the columns is only noted: what playback does next
/// is to go on, to quit, or to open a file.
pub proof fn lemma_input_action(start: InputResult, s: Scene, bytes: Seq<u8>)
    requires
        !(start.action is SwapColumns),
    ensures
        !(input_bytes(start, s, bytes).action is SwapColumns),
        !(input_step(input_bytes(start, s, bytes), s, None).action is SwapColumns),
    decreases bytes.len(),
{
    if bytes.len() > 0 {
        lemma_input_action(start, s, bytes.drop_last());
    }
}

/// No input moves a viewport that lies inside the image out of it.
pub proof fn lemma_input_inside(start: InputResult, s: Scene, bytes: Seq<u8>)
    requires
        inside(s.extents, start.controls.x as int, start.controls.y as int),
    ensures
        inside(
            s.extents,
            input_bytes(start, s, bytes).controls.x as int,
            input_bytes(start, s, bytes).controls.y as int,
        ),
        inside(
            s.extents,
            input_step(input_bytes(start, s, bytes), s, None).controls.x as int,
            input_step(input_bytes(start, s, bytes), s, None).controls.y as int,
        ),
    decreases bytes.len(),
{
    if bytes.len() > 0 {
        lemma_input_inside(start, s, bytes.drop_last());
        let before = input_bytes(start, s, bytes.drop_last());
        lemma_step_inside(before, s, Some(bytes.last()));
    }
    lemma_step_inside(input_bytes(start, s, bytes), s, None);
}

/// No step of the input moves a viewport that lies inside the image out of
/// it.
pub proof fn lemma_step_inside(r: InputResult, s: Scene, byte: Option<u8>)
    requires
        inside(s.extents, r.controls.x as int, r.controls.y as int),
    ensures
        inside(
            s.extents,
            input_step(r, s, byte).controls.x as int,
            input_step(r, s, byte).controls.y as int,
        ),
{
    if !r.stopped() {
        match decode_step(r.decoder, byte).1 {
            Decoded::Key(cmd) => {
                lemma_commands_keep_inside(
                    r.controls,
                    Scene { time_of_day: r.time_of_day, ..s },
                    cmd,
                );
            },
            _ => {},
        }
    }
}

/// Handles the input of one frame: decodes `bytes`, applies the commands in
/// their order, and stops where one of them quits or opens a file.
pub fn process_input(c: Controls, decoder: DecoderState, s: Scene, bytes: &Vec<u8>) -> (r:
    InputResult)
    ensures
        r == input_run(c, decoder, s, bytes@),
        r.consumed <= bytes@.len(),
        !(r.action is SwapColumns),
        inside(s.extents, c.x as int, c.y as int) ==> inside(
            s.extents,
            r.controls.x as int,
            r.controls.y as int,
        ),
{
    let mut r = InputResult {
        controls: c,
        decoder,
        time_of_day: s.time_of_day,
        action: Action::Continue,
        notice: None,
        swap_columns: false,
        consumed: 0,
    };
    let ghost start = r;
    let mut i: usize = 0;
    assert(bytes@.take(0) =~= Seq::<u8>::empty());
    while i < bytes.len() && !is_stopped(&r)
        invariant
            i <= bytes@.len(),
            start == input_start(c, decoder, s),
            r == input_bytes(start, s, bytes@.take(i as int)),
            r.consumed <= i,
        decreases bytes@.len() - i,
    {
        proof {
            assert(bytes@.take(i + 1).drop_last() =~= bytes@.take(i as int));
            assert(bytes@.take(i + 1).last() == bytes@[i as int]);
        }
        r = step(r, s, Some(bytes[i]));
        i += 1;
    }
    proof {
        let rest = bytes@.skip(i as int);
        assert(bytes@.take(i as int) + rest =~= bytes@);
        lemma_input_bytes_split(start, s, bytes@.take(i as int), rest);
        if r.stopped() {
            lemma_stopped_stays(r, s, rest);
        } else {
            assert(rest =~= Seq::<u8>::empty());
        }
        assert(r == input_bytes(start, s, bytes@));
        lemma_input_action(start, s, bytes@);
        if inside(s.extents, c.x as int, c.y as int) {
            lemma_input_inside(start, s, bytes@);
        }
    }
    if is_stopped(&r) {
        r
    } else {
        step(r, s, None)
    }
}

/// The times that a frame is given.
#[derive(Clone, Copy, Debug, PartialEq, Eq, Structural)]
pub struct Clock {
    /// The local time of day in milliseconds since some midnight.
    pub local_ms: u64,
    /// A time that only grows, in milliseconds.
    pub now: u64,
    /// Milliseconds since playback of the file began.
    pub elapsed_ms: u64,
}

/// A file on show, with all that changes while it is shown.
#[derive(Debug)]
pub struct Session {
    pub controls: Controls,
    pub decoder: DecoderState,
    pub banner: Banner,
    pub stage: Stage,
    /// Index of the file on show.
    pub file_index: usize,
    /// Number of files that were opened.
    pub file_count: usize,
}

/// The time until which a message posted at `now` is shown.
pub open spec fn shown_until(now: u64) -> u64 {
    if now + MESSAGE_DISPLAY_DURATION > u64::MAX {
        u64::MAX
    } else {
        (now + MESSAGE_DISPLAY_DURATION) as u64
    }
}

/// The extents of a session's image and of a drawing area.
pub open spec fn extents_of(image: IndexedView, extent: (u32, u32)) -> Extents {
    Extents {
        img_width: image.width as u32,
        img_height: image.height as u32,
        term_width: extent.0,
        term_height: extent.1,
    }
}

/// While time runs fast and nothing else is there to show, the time of day
/// is shown as the status message.
pub open spec fn clock_wanted(c: Controls, message: Seq<char>) -> bool {
    c.time_speed != 1 && message.len() == 0 && c.osd
}

/// The status message after the input of a frame.
pub struct Posted {
    pub message: Seq<char>,
    pub until: u64,
    /// The message was replaced in this frame.
    pub updated: bool,
}

/// The status message after the input `run` of a frame that began at `now`,
/// where it was `message`, shown until `until`, before: the last message
/// that a command gave takes its place, and then the time of day where that
/// is wanted.
pub open spec fn posted(message: Seq<char>, until: u64, run: InputResult, now: u64) -> Posted {
    let noted = match run.notice {
        Some(n) => " "@ + notice_text(n) + " "@,
        None => message,
    };
    let timed = clock_wanted(run.controls, noted);
    Posted {
        message: if timed {
            " "@ + notice_text(Notice::Clock(run.time_of_day)) + " "@
        } else {
            noted
        },
        until: if run.notice is Some || timed {
            shown_until(now)
        } else {
            until
        },
        updated: run.notice is Some || timed,
    }
}

/// Posts the messages that the input of a frame gave.
fn post_notices(banner: &mut Banner, run: &InputResult, now: u64) -> (updated: bool)
    ensures
        final(banner).message@ == posted(old(banner).message@, old(banner).until, *run, now).message,
        final(banner).until == posted(old(banner).message@, old(banner).until, *run, now).until,
        updated == posted(old(banner).message@, old(banner).until, *run, now).updated,
        final(banner).shown == old(banner).shown,
{
    let mut updated = false;
    match run.notice {
        Some(n) => {
            banner.post(notice_message(n), now);
            updated = true;
        },
        None => {},
    }
    if run.controls.time_speed != 1 && banner.message.as_str().is_empty() && run.controls.osd {
        banner.post(notice_message(Notice::Clock(run.time_of_day)), now);
        updated = true;
    }
    updated
}

impl Session {
    /// The session is in order: its stage is.
    pub open spec fn valid(self) -> bool {
        self.stage.valid()
    }

    /// The state of the input after the bytes of a frame, for a session in
    /// this state.
    pub open spec fn input_of(self, extent: (u32, u32), clock: Clock, bytes: Seq<u8>) -> InputResult {
        let e = extents_of(self.stage.world.base_view().image_view(), extent);
        let start = frame_start(self.controls, clock.local_ms, e);
        input_run(
            Controls { x: start.x, y: start.y, ..self.controls },
            self.decoder,
            Scene {
                extents: e,
                file_index: self.file_index,
                file_count: self.file_count,
                time_of_day: start.time_of_day,
                local_ms: clock.local_ms,
            },
            bytes,
        )
    }

    /// The status message after the input of a frame.
    pub open spec fn posted_of(self, extent: (u32, u32), clock: Clock, bytes: Seq<u8>) -> Posted {
        posted(
            self.banner.message@,
            self.banner.until,
            self.input_of(extent, clock, bytes),
            clock.now,
        )
    }

    /// What is done about the status message in a frame.
    pub open spec fn step_of(self, extent: (u32, u32), clock: Clock, bytes: Seq<u8>) -> OverlayStep {
        let p = self.posted_of(extent, clock, bytes);
        overlay_step(
            p.until,
            clock.now,
            p.updated,
            self.banner.message@.len(),
            p.message.len(),
            self.banner.shown,
        )
    }

    /// What the frame is drawn with, for a session in this state. The
    /// terminal's bottom row is written anew where a message ran out or a
    /// shorter one took its place.
    pub open spec fn shot_for(self, extent: (u32, u32), clock: Clock, bytes: Seq<u8>) -> Shot {
        let e = extents_of(self.stage.world.base_view().image_view(), extent);
        let run = self.input_of(extent, clock, bytes);
        let step = self.step_of(extent, clock, bytes);
        shot_of(
            run.controls,
            frame_start(self.controls, clock.local_ms, e),
            e,
            run.time_of_day,
            clock.elapsed_ms,
            step is Redraw || step is Hide,
        )
    }

    /// Opens a session on what loading a file gave, for a terminal of the
    /// given columns and rows, or for none.
    pub fn open(
        loaded: Result<LivingWorld, Error>,
        filename: &str,
        controls: Controls,
        file_index: usize,
        file_count: usize,
        dimensions: Option<(usize, usize)>,
        now: u64,
    ) -> (session: Session)
        requires
            loaded matches Ok(w) ==> w.wf(),
        ensures
            session_opened(
                session,
                loaded,
                filename@,
                controls,
                file_index,
                file_count,
                dimensions,
                now,
            ),
    {
        let mut banner = Banner::new();
        let world = open_world(loaded, filename, controls.osd, now, &mut banner);
        banner.shown = controls.osd;
        let width = world.base().width();
        let height = world.base().height();
        let (term_width, term_height) = extent_from(dimensions, width, height);
        let stage = Stage::new(world, term_width, term_height);
        let mut c = controls;
        c.x = center(width, term_width);
        c.y = center(height, term_height);
        Session { controls: c, decoder: DecoderState::Ground, banner, stage, file_index, file_count }
    }

    /// Opens a session as `open` does, for the terminal that the process is
    /// attached to, or for none if it is attached to none.
    pub fn open_here(
        loaded: Result<LivingWorld, Error>,
        filename: &str,
        controls: Controls,
        file_index: usize,
        file_count: usize,
        now: u64,
    ) -> (session: Session)
        requires
            loaded matches Ok(w) ==> w.wf(),
        ensures
            exists|dimensions: Option<(usize, usize)>|
                session_opened(
                    session,
                    loaded,
                    filename@,
                    controls,
                    file_index,
                    file_count,
                    dimensions,
                    now,
                ),
    {
        let dimensions = current_dimensions();
        Session::open(loaded, filename, controls, file_index, file_count, dimensions, now)
    }

    /// Plays one frame as `frame` does, in the drawing area of the terminal
    /// that the process is attached to, or in one of the image's extent if it
    /// is attached to none. Returns what `frame` returns.
    pub fn tick(&mut self, clock: Clock, bytes: &Vec<u8>, out: &mut String) -> (r: (Action, usize))
        requires
            old(self).valid(),
        ensures
            exists|dimensions: Option<(usize, usize)>|
                frame_done(
                    *old(self),
                    *final(self),
                    #[trigger] area_of(
                        dimensions,
                        old(self).stage.world.base_view().image_view().width as u32,
                        old(self).stage.world.base_view().image_view().height as u32,
                    ),
                    clock,
                    bytes@,
                    old(out)@,
                    final(out)@,
                    r,
                ),
    {
        let width = self.stage.world.base().width();
        let height = self.stage.world.base().height();
        let dimensions = current_dimensions();
        let extent = extent_from(dimensions, width, height);
        self.frame(extent, clock, bytes, out)
    }

    /// Plays one frame: takes the input that has come in, draws the frame
    /// into `out`, and puts the status message over it.
    ///
    /// Returns what playback does next and how many bytes of `bytes` were
    /// taken. Where a command quits or opens a file, nothing is drawn.
    pub fn frame(&mut self, extent: (u32, u32), clock: Clock, bytes: &Vec<u8>, out: &mut String) -> (r:
        (Action, usize))
        requires
            old(self).valid(),
        ensures
            frame_done(*old(self), *final(self), extent, clock, bytes@, old(out)@, final(out)@, r),
    {
        let e = Extents {
            img_width: self.stage.world.base().width(),
            img_height: self.stage.world.base().height(),
            term_width: extent.0,
            term_height: extent.1,
        };
        let start = begin_frame(self.controls, clock.local_ms, e);
        let mut fitted = self.controls;
        fitted.x = start.x;
        fitted.y = start.y;
        let scene = Scene {
            extents: e,
            file_index: self.file_index,
            file_count: self.file_count,
            time_of_day: start.time_of_day,
            local_ms: clock.local_ms,
        };
        proof {
            lemma_viewport_stays_inside(
                crate::input::Command::Quit,
                e,
                self.controls.x as int,
                self.controls.y as int,
            );
        }
        let old_len = self.banner.message.as_str().unicode_len();
        let run = process_input(fitted, self.decoder, scene, bytes);
        self.controls = run.controls;
        self.decoder = run.decoder;
        match run.action {
            Action::Continue => {},
            _ => {
                return (run.action, run.consumed);
            },
        }
        let updated = post_notices(&mut self.banner, &run, clock.now);
        let step = self.banner.settle(clock.now, updated, old_len);
        let restore = match step {
            OverlayStep::Redraw => true,
            OverlayStep::Hide => true,
            _ => false,
        };
        if run.swap_columns {
            self.stage.world.column_swap();
        }
        let shot = plan_shot(run.controls, start, e, run.time_of_day, clock.elapsed_ms, restore);
        self.stage.draw(shot, out);
        let ghost drawn = out@;
        match step {
            OverlayStep::Draw => {
                push_overlay(out, self.banner.message.as_str(), extent.0, extent.1);
            },
            OverlayStep::Redraw => {
                push_overlay(out, self.banner.message.as_str(), extent.0, extent.1);
            },
            _ => {
                assert(out@ =~= drawn + Seq::<char>::empty());
            },
        }
        (Action::Continue, run.consumed)
    }
}

/// What a frame has done: `after` is the session and `text_after` the text
/// after a frame on the session `before` and the text `text_before`, and `r`
/// is what the frame returned.
///
/// The input is taken as `input_of` says. Where a command quits or opens a
/// file, nothing is drawn and neither the stage nor the message changes.
/// Else the image's columns are mirrored if asked for, and nothing else of
/// the world changes; the frame is drawn as `shot_for` says, in the colors
/// that the world shows at the frame's time, in full if and only if the
/// drawing area differs from that of the frame before; and the status
/// message is as `posted_of` says and is written over the frame while it
/// lasts.
pub open spec fn frame_done(
    before: Session,
    after: Session,
    extent: (u32, u32),
    clock: Clock,
    bytes: Seq<u8>,
    text_before: Seq<char>,
    text_after: Seq<char>,
    r: (Action, usize),
) -> bool {
    let run = before.input_of(extent, clock, bytes);
    &&& r.0 == run.action
    &&& r.1 == run.consumed
    &&& r.1 <= bytes.len()
    &&& r.0 is Continue || r.0 is Quit || r.0 is Goto
    &&& after.controls == run.controls
    &&& after.decoder == run.decoder
    &&& after.file_index == before.file_index
    &&& after.file_count == before.file_count
    &&& after.valid()
    &&& if r.0 is Continue {
        frame_drawn(before, after, extent, clock, bytes, text_before, text_after)
    } else {
        &&& text_after == text_before
        &&& after.stage == before.stage
        &&& after.banner.message@ == before.banner.message@
        &&& after.banner.until == before.banner.until
        &&& after.banner.shown == before.banner.shown
    }
}

/// What a frame that goes on has done to the world, the stage, the status
/// message and the text.
pub open spec fn frame_drawn(
    before: Session,
    after: Session,
    extent: (u32, u32),
    clock: Clock,
    bytes: Seq<u8>,
    text_before: Seq<char>,
    text_after: Seq<char>,
) -> bool {
    let run = before.input_of(extent, clock, bytes);
    let shot = before.shot_for(extent, clock, bytes);
    let message = before.posted_of(extent, clock, bytes);
    let step = before.step_of(extent, clock, bytes);
    let resized = before.stage.term_width != extent.0 || before.stage.term_height != extent.1;
    let world = before.stage.world;
    let image = if run.swap_columns {
        world.base_view().image_view().column_swapped()
    } else {
        world.base_view().image_view()
    };
    &&& after.stage.world.base_view().image_view() == image
    &&& after.stage.world.base_view().name_view() == world.base_view().name_view()
    &&& after.stage.world.base_view().cycles_view() == world.base_view().cycles_view()
    &&& after.stage.world.timeline_view() == world.timeline_view()
    &&& after.stage.world.palettes_view() == world.palettes_view()
    &&& stage_drawn(
        image,
        active_palette(world, run.time_of_day as int, clock.elapsed_ms as int, run.controls.blend),
        before.stage.prev_frame@,
        resized,
        after.stage,
        shot,
    )
    &&& after.banner.message@ == message.message
    &&& after.banner.until == message.until
    &&& after.banner.shown == match step {
        OverlayStep::Draw => true,
        OverlayStep::Redraw => true,
        OverlayStep::Hide => false,
        OverlayStep::Rest => before.banner.shown,
    }
    &&& text_after == text_before + frame_text(
        after.stage.frame@,
        after.stage.prev_frame@,
        after.stage.viewport@,
        shot,
        resized,
    ) + if step is Draw || step is Redraw {
        overlay_text(message.message, extent.0 as nat, extent.1 as nat)
    } else {
        Seq::empty()
    }
}

/// What a session is when it was opened on what loading a file gave, for a
/// terminal of the given columns and rows, or for none.
///
/// The world and the status message are as `opened_as` says, and the message
/// counts as shown while status messages are on. The drawing area is that of
/// the terminal, or the image's extent without one. The viewport starts out
/// in the middle of the image, both frames are black, and the decoder is
/// outside any sequence.
pub open spec fn session_opened(
    session: Session,
    loaded: Result<LivingWorld, Error>,
    filename: Seq<char>,
    controls: Controls,
    file_index: usize,
    file_count: usize,
    dimensions: Option<(usize, usize)>,
    now: u64,
) -> bool {
    let image = session.stage.world.base_view().image_view();
    let area = area_of(dimensions, image.width as u32, image.height as u32);
    &&& session.valid()
    &&& opened_as(
        loaded,
        filename,
        controls.osd,
        now,
        Seq::empty(),
        0,
        session.stage.world,
        session.banner.message@,
        session.banner.until,
    )
    &&& session.banner.shown == controls.osd
    &&& session.file_index == file_index
    &&& session.file_count == file_count
    &&& session.decoder == DecoderState::Ground
    &&& session.stage.term_width == area.0
    &&& session.stage.term_height == area.1
    &&& session.controls == (Controls {
        x: centered(image.width as int, area.0 as int) as u32,
        y: centered(image.height as int, area.1 as int) as u32,
        ..controls
    })
    &&& session.stage.viewport@ == image.rect(
        session.controls.x as int,
        session.controls.y as int,
        area.0 as int,
        area.1 as int,
    )
    &&& session.stage.frame@ == Frame::blank(
        session.stage.viewport@.width,
        session.stage.viewport@.height,
    )
    &&& session.stage.prev_frame@ == Frame::blank(
        session.stage.viewport@.width,
        session.stage.viewport@.height,
    )
}

/// A frame in a drawing area of the same extent as that of the frame before
/// is written as a difference, whatever became of the status message: the
/// image is written in full only after the extent changed.
pub proof fn lemma_same_size_draws_difference(
    first: Session,
    second: Session,
    third: Session,
    extent: (u32, u32),
    clocks: (Clock, Clock),
    bytes: (Seq<u8>, Seq<u8>),
    texts: (Seq<char>, Seq<char>, Seq<char>, Seq<char>),
    returned: ((Action, usize), (Action, usize)),
)
    requires
        frame_done(first, second, extent, clocks.0, bytes.0, texts.0, texts.1, returned.0),
        frame_done(second, third, extent, clocks.1, bytes.1, texts.2, texts.3, returned.1),
        returned.0.0 is Continue,
        returned.1.0 is Continue,
    ensures
        ({
            let step = second.step_of(extent, clocks.1, bytes.1);
            texts.3 == texts.2 + frame_text(
                third.stage.frame@,
                third.stage.prev_frame@,
                third.stage.viewport@,
                second.shot_for(extent, clocks.1, bytes.1),
                false,
            ) + if step is Draw || step is Redraw {
                overlay_text(
                    second.posted_of(extent, clocks.1, bytes.1).message,
                    extent.0 as nat,
                    extent.1 as nat,
                )
            } else {
                Seq::empty()
            }
        }),
{
}

} // verus!
