//! The rules of playback: simulated time, the viewport, and what each
//! command does to the session.

use vstd::prelude::*;
use crate::input::Command;
use crate::text::{decimal, push_decimal};
use crate::world::DAY_DURATION;

verus! {

/// Highest frame rate that can be set.
pub const MAX_FPS: u32 = 10_000;

/// The coarse step of moving through time, in milliseconds.
pub const TIME_STEP: u64 = 300_000;

/// The fine step of moving through time, in milliseconds.
pub const SMALL_TIME_STEP: u64 = 60_000;

/// How many times faster than real time fast forward runs.
pub const FAST_FORWARD_SPEED: u64 = 10_000;

/// How long a status message stays, in milliseconds.
pub const MESSAGE_DISPLAY_DURATION: u64 = 3_000;

/// The hour and the minute of a time of day, which counts modulo the length
/// of a day.
pub fn get_hours_mins(time_of_day: u64) -> (hm: (u32, u32))
    ensures
        hm.0 == (time_of_day % DAY_DURATION) / 3_600_000,
        hm.1 == ((time_of_day % DAY_DURATION) / 60_000) % 60,
        hm.0 < 24,
        hm.1 < 60,
{
    let mins: u64 = (time_of_day % DAY_DURATION) / 60_000;
    let hours: u64 = mins / 60;
    (hours as u32, (mins - hours * 60) as u32)
}

/// The simulated time of day at the local time `local_ms`, counted in
/// milliseconds, when time runs `time_speed` times as fast as real time.
pub open spec fn simulated_time(local_ms: int, time_speed: int) -> int {
    (local_ms * time_speed) % (DAY_DURATION as int)
}

/// The simulated time of day at the local time `local_ms`.
pub fn time_of_day_at(local_ms: u64, time_speed: u64) -> (t: u64)
    ensures
        t == simulated_time(local_ms as int, time_speed as int),
        t < DAY_DURATION,
{
    proof {
        assert(0 <= local_ms * time_speed <= 0xffff_ffff_ffff_ffff * 0xffff_ffff_ffff_ffff)
            by (nonlinear_arith)
            requires
                0 <= local_ms <= 0xffff_ffff_ffff_ffff,
                0 <= time_speed <= 0xffff_ffff_ffff_ffff,
        ;
    }
    let scaled: u128 = (local_ms as u128) * (time_speed as u128);
    (scaled % (DAY_DURATION as u128)) as u64
}

/// The step that a time command moves by.
pub open spec fn time_step(small: bool) -> int {
    if small {
        SMALL_TIME_STEP as int
    } else {
        TIME_STEP as int
    }
}

/// The time of day one step back: the last multiple of the step before
/// `time_of_day`, which before midnight's first step is the last one of the
/// day before.
pub open spec fn stepped_back(time_of_day: int, small: bool) -> int {
    let t = time_of_day % (DAY_DURATION as int);
    let step = time_step(small);
    if t % step != 0 {
        t - t % step
    } else if t == 0 {
        DAY_DURATION - step
    } else {
        t - step
    }
}

/// The time of day one step forward: the first multiple of the step after
/// `time_of_day`, which after the day's last step is midnight.
pub open spec fn stepped_forward(time_of_day: int, small: bool) -> int {
    let t = time_of_day % (DAY_DURATION as int);
    let step = time_step(small);
    if t - t % step + step >= DAY_DURATION {
        0
    } else {
        t - t % step + step
    }
}

/// Goes back in time by one step.
pub fn step_back(time_of_day: u64, small: bool) -> (t: u64)
    ensures
        t == stepped_back(time_of_day as int, small),
        t < DAY_DURATION,
{
    let step = if small {
        SMALL_TIME_STEP
    } else {
        TIME_STEP
    };
    let now = time_of_day % DAY_DURATION;
    let rem = now % step;
    let aligned = now - rem;
    if aligned == now {
        if aligned < step {
            DAY_DURATION - step
        } else {
            aligned - step
        }
    } else {
        aligned
    }
}

/// Goes forward in time by one step.
pub fn step_forward(time_of_day: u64, small: bool) -> (t: u64)
    ensures
        t == stepped_forward(time_of_day as int, small),
        t < DAY_DURATION,
{
    let step = if small {
        SMALL_TIME_STEP
    } else {
        TIME_STEP
    };
    let now = time_of_day % DAY_DURATION;
    let next = now - now % step + step;
    if next >= DAY_DURATION {
        0
    } else {
        next
    }
}

/// A step back in time lands on a multiple of the step, inside the day,
/// more than nothing and at most one step before the time it started from,
/// counted around midnight.
pub proof fn lemma_stepped_back(time_of_day: int, small: bool)
    requires
        0 <= time_of_day < DAY_DURATION,
    ensures
        0 <= stepped_back(time_of_day, small) < DAY_DURATION,
        stepped_back(time_of_day, small) % time_step(small) == 0,
        0 < (time_of_day - stepped_back(time_of_day, small)) % (DAY_DURATION as int) <= time_step(
            small,
        ),
{
    let t = time_of_day;
    let step = time_step(small);
    let r = stepped_back(t, small);
    assert(t % (DAY_DURATION as int) == t);
    assert(DAY_DURATION as int % step == 0) by {
        if small {
            assert(86_400_000int % 60_000 == 0);
        } else {
            assert(86_400_000int % 300_000 == 0);
        }
    }
    if t % step != 0 {
        assert((t - t % step) % step == 0) by (nonlinear_arith)
            requires
                step > 0,
                t >= 0,
        ;
        assert(0 < t - r < DAY_DURATION);
    } else if t == 0 {
        assert((DAY_DURATION - step) % step == 0) by {
            if small {
                assert((86_400_000int - 60_000) % 60_000 == 0);
            } else {
                assert((86_400_000int - 300_000) % 300_000 == 0);
            }
        }
        assert((0 - (DAY_DURATION - step)) % (DAY_DURATION as int) == step) by {
            if small {
                assert((0int - (86_400_000 - 60_000)) % 86_400_000 == 60_000);
            } else {
                assert((0int - (86_400_000 - 300_000)) % 86_400_000 == 300_000);
            }
        }
    } else {
        assert((t - step) % step == 0) by (nonlinear_arith)
            requires
                step > 0,
                t % step == 0,
                t >= 0,
        ;
        assert(t >= step) by (nonlinear_arith)
            requires
                step > 0,
                t % step == 0,
                t > 0,
        ;
    }
}

/// A step forward in time lands on a multiple of the step, inside the day,
/// more than nothing and at most one step after the time it started from,
/// counted around midnight.
pub proof fn lemma_stepped_forward(time_of_day: int, small: bool)
    requires
        0 <= time_of_day < DAY_DURATION,
    ensures
        0 <= stepped_forward(time_of_day, small) < DAY_DURATION,
        stepped_forward(time_of_day, small) % time_step(small) == 0,
        0 < (stepped_forward(time_of_day, small) - time_of_day) % (DAY_DURATION as int)
            <= time_step(small),
{
    let t = time_of_day;
    let step = time_step(small);
    let next = t - t % step + step;
    assert(t % (DAY_DURATION as int) == t);
    assert((t - t % step) % step == 0) by (nonlinear_arith)
        requires
            step > 0,
            t >= 0,
    ;
    assert(next % step == 0) by (nonlinear_arith)
        requires
            step > 0,
            (next - step) % step == 0,
    ;
    if next >= DAY_DURATION {
        assert(DAY_DURATION as int % step == 0) by {
            if small {
                assert(86_400_000int % 60_000 == 0);
            } else {
                assert(86_400_000int % 300_000 == 0);
            }
        }
        assert(next == DAY_DURATION) by (nonlinear_arith)
            requires
                step > 0,
                next % step == 0,
                DAY_DURATION as int % step == 0,
                next >= DAY_DURATION,
                next - step < DAY_DURATION,
        ;
        assert((0 - t) % (DAY_DURATION as int) == DAY_DURATION - t) by {
            vstd::arithmetic::div_mod::lemma_mod_add_multiples_vanish(0 - t, DAY_DURATION as int);
            vstd::arithmetic::div_mod::lemma_small_mod(
                (DAY_DURATION - t) as nat,
                DAY_DURATION as nat,
            );
        }
    }
}

/// Where the viewport lies on one axis: the offset into the image, and the
/// margin that centers an image smaller than the terminal.
pub open spec fn fitted(img: int, term: int, pos: int) -> (int, int) {
    if img <= term {
        (0, (term - img) / 2)
    } else if pos > img - term {
        (img - term, 0)
    } else {
        (pos, 0)
    }
}

/// The offset at which a viewport starts out: the middle of the image.
pub open spec fn centered(img: int, term: int) -> int {
    if img > term {
        (img - term) / 2
    } else {
        0
    }
}

/// The offset after moving towards the start of the axis by `amount`.
pub open spec fn moved_back(img: int, term: int, pos: int, amount: int) -> int {
    if img > term {
        if pos > amount {
            pos - amount
        } else {
            0
        }
    } else {
        pos
    }
}

/// The offset after moving towards the end of the axis by `amount`.
pub open spec fn moved_forth(img: int, term: int, pos: int, amount: int) -> int {
    if img > term {
        if pos + amount > img - term {
            img - term
        } else {
            pos + amount
        }
    } else {
        pos
    }
}

/// The offset at which a viewport starts out on one axis.
pub fn center(img: u32, term: u32) -> (pos: u32)
    ensures
        pos == centered(img as int, term as int),
{
    if img > term {
        (img - term) / 2
    } else {
        0
    }
}

/// Brings an offset back inside the image on one axis, and gives the margin
/// that centers an image smaller than the terminal.
pub fn fit(img: u32, term: u32, pos: u32) -> (r: (u32, u32))
    ensures
        (r.0 as int, r.1 as int) == fitted(img as int, term as int, pos as int),
{
    if img <= term {
        (0, (term - img) / 2)
    } else if pos > img - term {
        (img - term, 0)
    } else {
        (pos, 0)
    }
}

fn move_back(img: u32, term: u32, pos: u32, amount: u32) -> (r: u32)
    ensures
        r == moved_back(img as int, term as int, pos as int, amount as int),
{
    if img > term {
        if pos > amount {
            pos - amount
        } else {
            0
        }
    } else {
        pos
    }
}

fn move_forth(img: u32, term: u32, pos: u32, amount: u32) -> (r: u32)
    ensures
        r == moved_forth(img as int, term as int, pos as int, amount as int),
{
    if img > term {
        let max = img - term;
        if pos > max || amount > max - pos {
            max
        } else {
            pos + amount
        }
    } else {
        pos
    }
}

/// The extents that a command works with.
#[derive(Clone, Copy, Debug, PartialEq, Eq, Structural)]
pub struct Extents {
    pub img_width: u32,
    pub img_height: u32,
    pub term_width: u32,
    pub term_height: u32,
}

/// The viewport offset after a command. Arrow keys move by one pixel, the
/// page keys by half a terminal, the edge keys to an edge. Where the image
/// is not larger than the terminal the offset stays. Commands that do not
/// move the viewport leave it alone.
pub open spec fn panned(cmd: Command, e: Extents, x: int, y: int) -> (int, int) {
    let w = e.img_width as int;
    let h = e.img_height as int;
    let tw = e.term_width as int;
    let th = e.term_height as int;
    match cmd {
        Command::Up => (x, moved_back(h, th, y, 1)),
        Command::Down => (x, moved_forth(h, th, y, 1)),
        Command::Left => (moved_back(w, tw, x, 1), y),
        Command::Right => (moved_forth(w, tw, x, 1), y),
        Command::Home => (moved_back(w, tw, x, x), y),
        Command::End => (moved_forth(w, tw, x, w), y),
        Command::Top => (x, moved_back(h, th, y, y)),
        Command::Bottom => (x, moved_forth(h, th, y, h)),
        Command::PageUp => (x, moved_back(h, th, y, th / 2)),
        Command::PageDown => (x, moved_forth(h, th, y, th / 2)),
        Command::PageLeft => (moved_back(w, tw, x, tw / 2), y),
        Command::PageRight => (moved_forth(w, tw, x, tw / 2), y),
        _ => (x, y),
    }
}

/// Moves the viewport as `cmd` says.
pub fn pan(cmd: Command, e: Extents, x: u32, y: u32) -> (r: (u32, u32))
    ensures
        (r.0 as int, r.1 as int) == panned(cmd, e, x as int, y as int),
{
    match cmd {
        Command::Up => (x, move_back(e.img_height, e.term_height, y, 1)),
        Command::Down => (x, move_forth(e.img_height, e.term_height, y, 1)),
        Command::Left => (move_back(e.img_width, e.term_width, x, 1), y),
        Command::Right => (move_forth(e.img_width, e.term_width, x, 1), y),
        Command::Home => (move_back(e.img_width, e.term_width, x, x), y),
        Command::End => (move_forth(e.img_width, e.term_width, x, e.img_width), y),
        Command::Top => (x, move_back(e.img_height, e.term_height, y, y)),
        Command::Bottom => (x, move_forth(e.img_height, e.term_height, y, e.img_height)),
        Command::PageUp => (x, move_back(e.img_height, e.term_height, y, e.term_height / 2)),
        Command::PageDown => (x, move_forth(e.img_height, e.term_height, y, e.term_height / 2)),
        Command::PageLeft => (move_back(e.img_width, e.term_width, x, e.term_width / 2), y),
        Command::PageRight => (move_forth(e.img_width, e.term_width, x, e.term_width / 2), y),
        _ => (x, y),
    }
}

/// The viewport lies inside the image: on each axis the offset leaves room
/// for as much of the image as the terminal shows.
pub open spec fn inside(e: Extents, x: int, y: int) -> bool {
    &&& 0 <= x
    &&& 0 <= y
    &&& x + e.term_width <= e.img_width || x == 0
    &&& y + e.term_height <= e.img_height || y == 0
}

/// A viewport brought back by `fit` lies inside the image, and no command
/// moves it out.
pub proof fn lemma_viewport_stays_inside(cmd: Command, e: Extents, x: int, y: int)
    requires
        0 <= x,
        0 <= y,
    ensures
        inside(
            e,
            fitted(e.img_width as int, e.term_width as int, x).0,
            fitted(e.img_height as int, e.term_height as int, y).0,
        ),
        inside(e, x, y) ==> inside(e, panned(cmd, e, x, y).0, panned(cmd, e, x, y).1),
{
}

/// `term_size::dimensions`: the columns and rows of the terminal that the
/// process is attached to, or `None` if it is attached to none. Nothing is
/// claimed about the outcome.
#[verifier::external_body]
pub(crate) fn current_dimensions() -> Option<(usize, usize)> {
    term_size::dimensions()
}

/// The extent of the drawing area in pixels for a terminal of the given
/// columns and rows: a column is one pixel wide and a row two pixels high.
/// Without a terminal it is the image's extent. Numbers that do not fit are
/// cut off at the largest one that does.
pub open spec fn area_of(dimensions: Option<(usize, usize)>, img_width: u32, img_height: u32) -> (
    u32,
    u32,
) {
    match dimensions {
        Some((columns, rows)) => (
            if columns > u32::MAX {
                u32::MAX
            } else {
                columns as u32
            },
            if 2 * rows > u32::MAX {
                u32::MAX
            } else {
                (2 * rows) as u32
            },
        ),
        None => (img_width, img_height),
    }
}

/// The extent of the drawing area in pixels for a terminal of the given
/// columns and rows.
pub fn extent_from(dimensions: Option<(usize, usize)>, img_width: u32, img_height: u32) -> (r: (
    u32,
    u32,
))
    ensures
        r == area_of(dimensions, img_width, img_height),
{
    match dimensions {
        Some((columns, rows)) => {
            let w: u32 = if columns > u32::MAX as usize {
                u32::MAX
            } else {
                columns as u32
            };
            let h: u32 = if rows > (u32::MAX / 2) as usize {
                u32::MAX
            } else {
                (rows as u32) * 2
            };
            (w, h)
        },
        None => (img_width, img_height),
    }
}

/// The extent of the drawing area of the terminal that the process is
/// attached to, or the image's extent if it is attached to none.
pub fn terminal_extent(img_width: u32, img_height: u32) -> (r: (u32, u32))
    ensures
        exists|dimensions: Option<(usize, usize)>| r == area_of(dimensions, img_width, img_height),
{
    let dimensions = current_dimensions();
    extent_from(dimensions, img_width, img_height)
}

/// The settings that commands change.
#[derive(Clone, Copy, Debug, PartialEq, Eq, Structural)]
pub struct Controls {
    /// Frames per second.
    pub fps: u32,
    /// Cross-fade the steps of color cycles.
    pub blend: bool,
    /// Show status messages.
    pub osd: bool,
    /// The time of day that playback is held at, if any.
    pub current_time: Option<u64>,
    /// How many times faster than real time the simulated time runs.
    pub time_speed: u64,
    /// Horizontal offset of the viewport.
    pub x: u32,
    /// Vertical offset of the viewport.
    pub y: u32,
}

/// What a command works with besides the settings.
#[derive(Clone, Copy, Debug, PartialEq, Eq, Structural)]
pub struct Scene {
    pub extents: Extents,
    /// Index of the file that is shown.
    pub file_index: usize,
    /// Number of files that were opened.
    pub file_count: usize,
    /// The simulated time of day of this frame.
    pub time_of_day: u64,
    /// The local time in milliseconds.
    pub local_ms: u64,
}

/// What playback does next.
#[derive(Clone, Copy, Debug, PartialEq, Eq, Structural)]
pub enum Action {
    /// Go on with this file.
    Continue,
    Quit,
    /// Open the file with this index.
    Goto(usize),
    /// Mirror the image's columns in groups of eight, then go on.
    SwapColumns,
}

/// What a status message says.
#[derive(Clone, Copy, Debug, PartialEq, Eq, Structural)]
pub enum Notice {
    BlendMode(bool),
    Osd(bool),
    Fps(u32),
    LastFile,
    FirstFile,
    FileCount(usize),
    /// A time of day.
    Clock(u64),
    FastForward(bool),
}

/// What a command leads to.
#[derive(Clone, Copy, Debug, PartialEq, Eq, Structural)]
pub struct Outcome {
    pub controls: Controls,
    /// The simulated time of day after the command.
    pub time_of_day: u64,
    pub action: Action,
    /// The message to show, if any.
    pub notice: Option<Notice>,
}

/// A message that is shown only while status messages are on.
pub open spec fn if_osd(c: Controls, n: Notice) -> Option<Notice> {
    if c.osd {
        Some(n)
    } else {
        None
    }
}

/// What the command `cmd` leads to with settings `c` in the scene `s`.
///
/// The frame rate stays between 1 and `MAX_FPS`. Going to a file that is
/// not there gives a message instead. Moving through time holds playback at
/// the new time and ends fast forward; returning to real time lets go of it.
/// Fast forward runs from the clock when switched on, and holds the time
/// reached when switched off. Messages appear only while status messages are
/// on, but for the one that announces what the switch for them did.
pub open spec fn commanded(c: Controls, s: Scene, cmd: Command) -> Outcome {
    let stay = Outcome { controls: c, time_of_day: s.time_of_day, action: Action::Continue, notice: None };
    match cmd {
        Command::Quit => Outcome { action: Action::Quit, ..stay },
        Command::ToggleBlend => Outcome {
            controls: Controls { blend: !c.blend, ..c },
            notice: if_osd(c, Notice::BlendMode(!c.blend)),
            ..stay
        },
        Command::ToggleOsd => Outcome {
            controls: Controls { osd: !c.osd, ..c },
            notice: Some(Notice::Osd(!c.osd)),
            ..stay
        },
        Command::FpsUp => if c.fps < MAX_FPS {
            Outcome {
                controls: Controls { fps: (c.fps + 1) as u32, ..c },
                notice: if_osd(c, Notice::Fps((c.fps + 1) as u32)),
                ..stay
            }
        } else {
            stay
        },
        Command::FpsDown => if c.fps > 1 {
            Outcome {
                controls: Controls { fps: (c.fps - 1) as u32, ..c },
                notice: if_osd(c, Notice::Fps((c.fps - 1) as u32)),
                ..stay
            }
        } else {
            stay
        },
        Command::NextFile => if s.file_index + 1 >= s.file_count {
            Outcome { notice: if_osd(c, Notice::LastFile), ..stay }
        } else {
            Outcome { action: Action::Goto((s.file_index + 1) as usize), ..stay }
        },
        Command::PrevFile => if s.file_index == 0 {
            Outcome { notice: if_osd(c, Notice::FirstFile), ..stay }
        } else {
            Outcome { action: Action::Goto((s.file_index - 1) as usize), ..stay }
        },
        Command::LastFile => if s.file_count == 0 {
            stay
        } else {
            Outcome { action: Action::Goto((s.file_count - 1) as usize), ..stay }
        },
        Command::OpenFile(index) => if index == 0 || index < s.file_count {
            Outcome { action: Action::Goto(index as usize), ..stay }
        } else {
            Outcome { notice: if_osd(c, Notice::FileCount(s.file_count)), ..stay }
        },
        Command::TimeBack(small) => {
            let t = stepped_back(s.time_of_day as int, small) as u64;
            Outcome {
                controls: Controls { time_speed: 1, current_time: Some(t), ..c },
                time_of_day: t,
                notice: if_osd(c, Notice::Clock(t)),
                ..stay
            }
        },
        Command::TimeForward(small) => {
            let t = stepped_forward(s.time_of_day as int, small) as u64;
            Outcome {
                controls: Controls { time_speed: 1, current_time: Some(t), ..c },
                time_of_day: t,
                notice: if_osd(c, Notice::Clock(t)),
                ..stay
            }
        },
        Command::RealTime => {
            let t = simulated_time(s.local_ms as int, 1) as u64;
            Outcome {
                controls: Controls { time_speed: 1, current_time: None, ..c },
                time_of_day: t,
                notice: if_osd(c, Notice::Clock(t)),
                ..stay
            }
        },
        Command::ToggleFastForward => if c.time_speed == 1 {
            Outcome {
                controls: Controls { time_speed: FAST_FORWARD_SPEED, current_time: None, ..c },
                time_of_day: simulated_time(s.local_ms as int, FAST_FORWARD_SPEED as int) as u64,
                notice: if_osd(c, Notice::FastForward(true)),
                ..stay
            }
        } else {
            Outcome {
                controls: Controls { time_speed: 1, current_time: Some(s.time_of_day), ..c },
                notice: if_osd(c, Notice::FastForward(false)),
                ..stay
            }
        },
        Command::ColumnSwap => Outcome { action: Action::SwapColumns, ..stay },
        _ => {
            let (x, y) = panned(cmd, s.extents, c.x as int, c.y as int);
            Outcome { controls: Controls { x: x as u32, y: y as u32, ..c }, ..stay }
        },
    }
}

fn noticed(c: Controls, n: Notice) -> (r: Option<Notice>)
    ensures
        r == if_osd(c, n),
{
    if c.osd {
        Some(n)
    } else {
        None
    }
}

/// Applies one command.
pub fn apply_command(c: Controls, s: Scene, cmd: Command) -> (r: Outcome)
    ensures
        r == commanded(c, s, cmd),
{
    let stay = Outcome { controls: c, time_of_day: s.time_of_day, action: Action::Continue, notice: None };
    let mut next = c;
    match cmd {
        Command::Quit => Outcome { controls: c, time_of_day: s.time_of_day, action: Action::Quit, notice: None },
        Command::ToggleBlend => {
            next.blend = !c.blend;
            Outcome {
                controls: next,
                time_of_day: s.time_of_day,
                action: Action::Continue,
                notice: noticed(c, Notice::BlendMode(!c.blend)),
            }
        },
        Command::ToggleOsd => {
            next.osd = !c.osd;
            Outcome {
                controls: next,
                time_of_day: s.time_of_day,
                action: Action::Continue,
                notice: Some(Notice::Osd(!c.osd)),
            }
        },
        Command::FpsUp => {
            if c.fps < MAX_FPS {
                next.fps = c.fps + 1;
                Outcome {
                    controls: next,
                    time_of_day: s.time_of_day,
                    action: Action::Continue,
                    notice: noticed(c, Notice::Fps(c.fps + 1)),
                }
            } else {
                stay
            }
        },
        Command::FpsDown => {
            if c.fps > 1 {
                next.fps = c.fps - 1;
                Outcome {
                    controls: next,
                    time_of_day: s.time_of_day,
                    action: Action::Continue,
                    notice: noticed(c, Notice::Fps(c.fps - 1)),
                }
            } else {
                stay
            }
        },
        Command::NextFile => {
            if s.file_index >= s.file_count || s.file_index + 1 >= s.file_count {
                Outcome {
                    controls: c,
                    time_of_day: s.time_of_day,
                    action: Action::Continue,
                    notice: noticed(c, Notice::LastFile),
                }
            } else {
                Outcome {
                    controls: c,
                    time_of_day: s.time_of_day,
                    action: Action::Goto(s.file_index + 1),
                    notice: None,
                }
            }
        },
        Command::PrevFile => {
            if s.file_index == 0 {
                Outcome {
                    controls: c,
                    time_of_day: s.time_of_day,
                    action: Action::Continue,
                    notice: noticed(c, Notice::FirstFile),
                }
            } else {
                Outcome {
                    controls: c,
                    time_of_day: s.time_of_day,
                    action: Action::Goto(s.file_index - 1),
                    notice: None,
                }
            }
        },
        Command::LastFile => {
            if s.file_count == 0 {
                stay
            } else {
                Outcome {
                    controls: c,
                    time_of_day: s.time_of_day,
                    action: Action::Goto(s.file_count - 1),
                    notice: None,
                }
            }
        },
        Command::OpenFile(index) => {
            if index == 0 || (index as usize) < s.file_count {
                Outcome {
                    controls: c,
                    time_of_day: s.time_of_day,
                    action: Action::Goto(index as usize),
                    notice: None,
                }
            } else {
                Outcome {
                    controls: c,
                    time_of_day: s.time_of_day,
                    action: Action::Continue,
                    notice: noticed(c, Notice::FileCount(s.file_count)),
                }
            }
        },
        Command::TimeBack(small) => {
            let t = step_back(s.time_of_day, small);
            next.time_speed = 1;
            next.current_time = Some(t);
            Outcome {
                controls: next,
                time_of_day: t,
                action: Action::Continue,
                notice: noticed(c, Notice::Clock(t)),
            }
        },
        Command::TimeForward(small) => {
            let t = step_forward(s.time_of_day, small);
            next.time_speed = 1;
            next.current_time = Some(t);
            Outcome {
                controls: next,
                time_of_day: t,
                action: Action::Continue,
                notice: noticed(c, Notice::Clock(t)),
            }
        },
        Command::RealTime => {
            let t = time_of_day_at(s.local_ms, 1);
            next.time_speed = 1;
            next.current_time = None;
            Outcome {
                controls: next,
                time_of_day: t,
                action: Action::Continue,
                notice: noticed(c, Notice::Clock(t)),
            }
        },
        Command::ToggleFastForward => {
            if c.time_speed == 1 {
                next.time_speed = FAST_FORWARD_SPEED;
                next.current_time = None;
                Outcome {
                    controls: next,
                    time_of_day: time_of_day_at(s.local_ms, FAST_FORWARD_SPEED),
                    action: Action::Continue,
                    notice: noticed(c, Notice::FastForward(true)),
                }
            } else {
                next.time_speed = 1;
                next.current_time = Some(s.time_of_day);
                Outcome {
                    controls: next,
                    time_of_day: s.time_of_day,
                    action: Action::Continue,
                    notice: noticed(c, Notice::FastForward(false)),
                }
            }
        },
        Command::ColumnSwap => Outcome {
            controls: c,
            time_of_day: s.time_of_day,
            action: Action::SwapColumns,
            notice: None,
        },
        _ => {
            let (x, y) = pan(cmd, s.extents, c.x, c.y);
            next.x = x;
            next.y = y;
            Outcome { controls: next, time_of_day: s.time_of_day, action: Action::Continue, notice: None }
        },
    }
}

/// Whatever the command, the frame rate stays between 1 and `MAX_FPS`, the
/// time speed is real time or fast forward, and a time that playback is held
/// at lies inside the day.
pub open spec fn controls_valid(c: Controls) -> bool {
    &&& 1 <= c.fps <= MAX_FPS
    &&& c.time_speed == 1 || c.time_speed == FAST_FORWARD_SPEED
    &&& c.current_time matches Some(t) ==> t < DAY_DURATION
}

/// No command leads out of the valid settings, and a command that opens a
/// file names one that is there.
pub proof fn lemma_commands_keep_valid(c: Controls, s: Scene, cmd: Command)
    requires
        controls_valid(c),
        s.time_of_day < DAY_DURATION,
        s.file_index < s.file_count,
    ensures
        controls_valid(commanded(c, s, cmd).controls),
        commanded(c, s, cmd).time_of_day < DAY_DURATION,
        commanded(c, s, cmd).action matches Action::Goto(i) ==> i < s.file_count,
{
    match cmd {
        Command::TimeBack(small) => {
            lemma_stepped_back(s.time_of_day as int, small);
        },
        Command::TimeForward(small) => {
            lemma_stepped_forward(s.time_of_day as int, small);
        },
        _ => {},
    }
}

/// No command moves a viewport that lies inside the image out of it.
pub proof fn lemma_commands_keep_inside(c: Controls, s: Scene, cmd: Command)
    requires
        inside(s.extents, c.x as int, c.y as int),
    ensures
        inside(
            s.extents,
            commanded(c, s, cmd).controls.x as int,
            commanded(c, s, cmd).controls.y as int,
        ),
{
    lemma_viewport_stays_inside(cmd, s.extents, c.x as int, c.y as int);
}

/// Minutes as two digits.
pub open spec fn two_digits(n: nat) -> Seq<char> {
    if n < 10 {
        "0"@ + decimal(n)
    } else {
        decimal(n)
    }
}

/// A time of day as hours, a colon, and minutes in two digits.
pub open spec fn clock_text(time_of_day: int) -> Seq<char> {
    let t = time_of_day % (DAY_DURATION as int);
    decimal((t / 3_600_000) as nat) + ":"@ + two_digits(((t / 60_000) % 60) as nat)
}

/// What a message says.
pub open spec fn notice_text(n: Notice) -> Seq<char> {
    match n {
        Notice::BlendMode(on) => if on {
            "Blend Mode: Enabled"@
        } else {
            "Blend Mode: Disabled"@
        },
        Notice::Osd(on) => if on {
            "OSD: Enabled"@
        } else {
            "OSD: Disabled"@
        },
        Notice::Fps(fps) => "FPS: "@ + decimal(fps as nat),
        Notice::LastFile => "Already at last file."@,
        Notice::FirstFile => "Already at first file."@,
        Notice::FileCount(count) => "Only "@ + decimal(count as nat) + " files opened!"@,
        Notice::Clock(t) => clock_text(t as int),
        Notice::FastForward(on) => if on {
            "Fast Forward: ON"@
        } else {
            "Fast Forward: OFF"@
        },
    }
}

/// Appends a time of day as hours, a colon, and minutes in two digits.
pub fn push_clock(out: &mut String, time_of_day: u64)
    ensures
        final(out)@ == old(out)@ + clock_text(time_of_day as int),
{
    let (hours, mins) = get_hours_mins(time_of_day);
    push_decimal(out, hours as u64);
    out.push_str(":");
    if mins < 10 {
        out.push_str("0");
    }
    push_decimal(out, mins as u64);
    assert(out@ =~= old(out)@ + clock_text(time_of_day as int));
}

/// The status message for `n`: its text between two spaces.
pub fn notice_message(n: Notice) -> (message: String)
    ensures
        message@ == " "@ + notice_text(n) + " "@,
{
    let mut message = String::new();
    message.push_str(" ");
    let ghost lead = message@;
    match n {
        Notice::BlendMode(on) => {
            if on {
                message.push_str("Blend Mode: Enabled");
            } else {
                message.push_str("Blend Mode: Disabled");
            }
        },
        Notice::Osd(on) => {
            if on {
                message.push_str("OSD: Enabled");
            } else {
                message.push_str("OSD: Disabled");
            }
        },
        Notice::Fps(fps) => {
            message.push_str("FPS: ");
            push_decimal(&mut message, fps as u64);
            assert(message@ =~= lead + notice_text(n));
        },
        Notice::LastFile => {
            message.push_str("Already at last file.");
        },
        Notice::FirstFile => {
            message.push_str("Already at first file.");
        },
        Notice::FileCount(count) => {
            message.push_str("Only ");
            push_decimal(&mut message, count as u64);
            message.push_str(" files opened!");
            assert(message@ =~= lead + notice_text(n));
        },
        Notice::Clock(t) => {
            push_clock(&mut message, t);
        },
        Notice::FastForward(on) => {
            if on {
                message.push_str("Fast Forward: ON");
            } else {
                message.push_str("Fast Forward: OFF");
            }
        },
    }
    assert(message@ == lead + notice_text(n));
    message.push_str(" ");
    assert(lead =~= " "@);
    message
}


/// The options that a session starts with.
#[derive(Debug)]
pub struct Args {
    /// Frames per second.
    pub fps: u32,
    /// Cross-fade the steps of color cycles.
    pub blend: bool,
    /// Show status messages.
    pub osd: bool,
    /// Mirror the columns of the images in groups of eight.
    pub ilbm_column_swap: bool,
    /// Show the list of hotkeys instead of playing.
    pub help_hotkeys: bool,
    /// The files to show.
    pub paths: Vec<String>,
}

/// A frame rate brought into the range from 1 to `MAX_FPS`.
pub open spec fn clamped_fps(fps: u32) -> u32 {
    if fps < 1 {
        1
    } else if fps > MAX_FPS {
        MAX_FPS
    } else {
        fps
    }
}

impl Args {
    /// The settings that playback starts with: the options' frame rate,
    /// brought into range, and switches; real time; the viewport at the
    /// image's origin.
    pub fn controls(&self) -> (c: Controls)
        ensures
            c == (Controls {
                fps: clamped_fps(self.fps),
                blend: self.blend,
                osd: self.osd,
                current_time: None,
                time_speed: 1,
                x: 0,
                y: 0,
            }),
            controls_valid(c),
    {
        let fps = if self.fps < 1 {
            1
        } else if self.fps > MAX_FPS {
            MAX_FPS
        } else {
            self.fps
        };
        Controls {
            fps,
            blend: self.blend,
            osd: self.osd,
            current_time: None,
            time_speed: 1,
            x: 0,
            y: 0,
        }
    }
}

/// What a frame starts with.
#[derive(Clone, Copy, Debug, PartialEq, Eq, Structural)]
pub struct FrameStart {
    /// The simulated time of day.
    pub time_of_day: u64,
    /// Horizontal offset of the viewport, brought back inside the image.
    pub x: u32,
    /// Vertical offset of the viewport, brought back inside the image.
    pub y: u32,
    /// Columns left of the image where it is narrower than the terminal.
    pub viewport_x: u32,
    /// Pixel rows above the image where it is lower than the terminal.
    pub viewport_y: u32,
}

/// What a frame starts with: the time that playback is held at, or else the
/// simulated time at the local time `local_ms`; and the viewport, fitted to
/// the extents.
pub open spec fn frame_start(c: Controls, local_ms: u64, e: Extents) -> FrameStart {
    let horizontal = fitted(e.img_width as int, e.term_width as int, c.x as int);
    let vertical = fitted(e.img_height as int, e.term_height as int, c.y as int);
    FrameStart {
        time_of_day: match c.current_time {
            Some(t) => t,
            None => simulated_time(local_ms as int, c.time_speed as int) as u64,
        },
        x: horizontal.0 as u32,
        y: vertical.0 as u32,
        viewport_x: horizontal.1 as u32,
        viewport_y: vertical.1 as u32,
    }
}

/// Samples the time and fits the viewport at the start of a frame.
pub fn begin_frame(c: Controls, local_ms: u64, e: Extents) -> (start: FrameStart)
    ensures
        start == frame_start(c, local_ms, e),
{
    let time_of_day = match c.current_time {
        Some(t) => t,
        None => time_of_day_at(local_ms, c.time_speed),
    };
    let (x, viewport_x) = fit(e.img_width, e.term_width, c.x);
    let (y, viewport_y) = fit(e.img_height, e.term_height, c.y);
    FrameStart { time_of_day, x, y, viewport_x, viewport_y }
}

/// The length of a frame in nanoseconds at `fps` frames per second, where a
/// rate of zero counts as one.
pub open spec fn frame_nanos(fps: u32) -> int {
    if fps == 0 {
        1_000_000_000
    } else {
        1_000_000_000int / (fps as int)
    }
}

/// How long to sleep at the end of a frame that has taken `elapsed_nanos`
/// so far: the rest of the frame's length, or `None` if none is left.
pub fn sleep_nanos(fps: u32, elapsed_nanos: u64) -> (rest: Option<u64>)
    ensures
        rest == if frame_nanos(fps) > elapsed_nanos {
            Some((frame_nanos(fps) - elapsed_nanos) as u64)
        } else {
            None
        },
{
    let frame: u64 = if fps == 0 {
        1_000_000_000
    } else {
        1_000_000_000 / (fps as u64)
    };
    if frame > elapsed_nanos {
        Some(frame - elapsed_nanos)
    } else {
        None
    }
}


} // verus!
