use color_cycle::error::Error;
use color_cycle::input::{decode, decode_all, Command, Decoded, DecoderState};
use color_cycle::playback::{
    apply_command, begin_frame, center, extent_from, fit, get_hours_mins, notice_message, pan,
    push_clock, sleep_nanos, step_back, step_forward, terminal_extent, time_of_day_at, Action,
    Args, Controls, Extents, FrameStart, Notice, Scene, FAST_FORWARD_SPEED, MAX_FPS,
};

fn keys(bytes: &[u8]) -> (DecoderState, Vec<Command>) {
    decode_all(DecoderState::Ground, &bytes.to_vec())
}

#[test]
fn error_text() {
    let e = Error::new("no such image");
    assert_eq!(e.message(), "no such image");
    assert_eq!(e.source(), None);
    assert_eq!(e.describe(), "no such image");
    let e = Error::with_cause("IO error", "file not found");
    assert_eq!(e.message(), "IO error");
    assert_eq!(e.source(), Some("file not found"));
    assert_eq!(e.describe(), "IO error: file not found");
}

#[test]
fn plain_keys() {
    let (state, commands) = keys(b"qbo+-npaAdDswi0159x \n");
    assert_eq!(state, DecoderState::Ground);
    assert_eq!(
        commands,
        vec![
            Command::Quit,
            Command::ToggleBlend,
            Command::ToggleOsd,
            Command::FpsUp,
            Command::FpsDown,
            Command::NextFile,
            Command::PrevFile,
            Command::TimeBack(false),
            Command::TimeBack(true),
            Command::TimeForward(false),
            Command::TimeForward(true),
            Command::RealTime,
            Command::ToggleFastForward,
            Command::ColumnSwap,
            Command::LastFile,
            Command::OpenFile(0),
            Command::OpenFile(4),
            Command::OpenFile(8),
        ]
    );
}

#[test]
fn navigation_keys() {
    assert_eq!(keys(b"\x1b[A").1, vec![Command::Up]);
    assert_eq!(keys(b"\x1b[B").1, vec![Command::Down]);
    assert_eq!(keys(b"\x1b[C").1, vec![Command::Right]);
    assert_eq!(keys(b"\x1b[D").1, vec![Command::Left]);
    assert_eq!(keys(b"\x1b[H").1, vec![Command::Home]);
    assert_eq!(keys(b"\x1b[F").1, vec![Command::End]);
    assert_eq!(keys(b"\x1b[1;5H").1, vec![Command::Top]);
    assert_eq!(keys(b"\x1b[1;5F").1, vec![Command::Bottom]);
    assert_eq!(keys(b"\x1b[5~").1, vec![Command::PageUp]);
    assert_eq!(keys(b"\x1b[6~").1, vec![Command::PageDown]);
    assert_eq!(keys(b"\x1b[5;3~").1, vec![Command::PageLeft]);
    assert_eq!(keys(b"\x1b[6;3~").1, vec![Command::PageRight]);
    assert_eq!(
        keys(b"\x1b[A\x1b[6~b\x1b[1;5F"),
        (
            DecoderState::Ground,
            vec![Command::Up, Command::PageDown, Command::ToggleBlend, Command::Bottom]
        )
    );
}

#[test]
fn unknown_sequences_are_dropped() {
    assert_eq!(keys(b"\x1b[2~b"), (DecoderState::Ground, vec![Command::ToggleBlend]));
    assert_eq!(keys(b"\x1b[1;2Ab"), (DecoderState::Ground, vec![Command::ToggleBlend]));
    assert_eq!(keys(b"\x1b[15;31;7Rb"), (DecoderState::Ground, vec![Command::ToggleBlend]));
    assert_eq!(keys(b"\x1b[5Ab"), (DecoderState::Ground, vec![Command::ToggleBlend]));
    assert_eq!(keys(b"\x1b[Zq"), (DecoderState::Ground, vec![Command::Quit]));
    assert_eq!(keys(b"\x1bOb"), (DecoderState::Ground, vec![Command::ToggleBlend]));
    assert_eq!(keys(b"\x1b[1;5"), (DecoderState::OneSemiFive, vec![]));
    assert_eq!(keys(b"\x1b[6;"), (DecoderState::SixSemi, vec![]));
    assert_eq!(keys(b"\x1b[77"), (DecoderState::Unknown, vec![]));
}

#[test]
fn escape_alone_quits() {
    assert_eq!(keys(b"\x1b"), (DecoderState::Escape, vec![]));
    assert_eq!(
        decode(DecoderState::Escape, None),
        (DecoderState::Ground, Decoded::Key(Command::Quit))
    );
    assert_eq!(keys(b"\x1b\x1b"), (DecoderState::Ground, vec![Command::Quit]));
    assert_eq!(decode(DecoderState::Ground, None), (DecoderState::Ground, Decoded::Idle));
    // a sequence that was begun is dropped when no byte follows
    assert_eq!(decode(DecoderState::Csi, None), (DecoderState::Ground, Decoded::Idle));
    assert_eq!(decode(DecoderState::Five, None), (DecoderState::Ground, Decoded::Idle));
    assert_eq!(decode(DecoderState::Ground, Some(0x1b)), (DecoderState::Escape, Decoded::Nothing));
    assert_eq!(decode(DecoderState::Escape, Some(b'[')), (DecoderState::Csi, Decoded::Nothing));
    assert_eq!(decode(DecoderState::Ground, Some(b'z')), (DecoderState::Ground, Decoded::Nothing));
}

#[test]
fn hours_and_minutes() {
    assert_eq!(get_hours_mins(0), (0, 0));
    assert_eq!(get_hours_mins(59_999), (0, 0));
    assert_eq!(get_hours_mins(60_000), (0, 1));
    assert_eq!(get_hours_mins(13 * 3_600_000 + 7 * 60_000 + 59_999), (13, 7));
    assert_eq!(get_hours_mins(86_399_999), (23, 59));
    assert_eq!(get_hours_mins(86_400_000 + 3_600_000), (1, 0));
    let mut out = String::from("at ");
    push_clock(&mut out, 9 * 3_600_000 + 5 * 60_000);
    push_clock(&mut out, 23 * 3_600_000 + 45 * 60_000);
    assert_eq!(out, "at 9:0523:45");
}

#[test]
fn simulated_time() {
    assert_eq!(time_of_day_at(1_000, 1), 1_000);
    assert_eq!(time_of_day_at(86_400_000 + 5, 1), 5);
    assert_eq!(time_of_day_at(10_000, 10_000), 100_000_000 % 86_400_000);
    assert_eq!(
        time_of_day_at(u64::MAX, u64::MAX),
        ((u64::MAX as u128 * u64::MAX as u128) % 86_400_000) as u64
    );
}

#[test]
fn time_steps() {
    // inside a step: back to its start, forward to its end
    assert_eq!(step_back(301_000, false), 300_000);
    assert_eq!(step_forward(301_000, false), 600_000);
    assert_eq!(step_back(301_000, true), 300_000);
    assert_eq!(step_forward(301_000, true), 360_000);
    // on a step: a whole step
    assert_eq!(step_back(600_000, false), 300_000);
    assert_eq!(step_forward(600_000, false), 900_000);
    assert_eq!(step_back(120_000, true), 60_000);
    // around midnight
    assert_eq!(step_back(0, false), 86_100_000);
    assert_eq!(step_back(0, true), 86_340_000);
    assert_eq!(step_back(1, false), 0);
    assert_eq!(step_forward(86_100_000, false), 0);
    assert_eq!(step_forward(86_399_999, true), 0);
    assert_eq!(step_forward(86_099_999, false), 86_100_000);
}

fn extents(img_width: u32, img_height: u32, term_width: u32, term_height: u32) -> Extents {
    Extents { img_width, img_height, term_width, term_height }
}

#[test]
fn viewport_fitting() {
    assert_eq!(center(640, 80), 280);
    assert_eq!(center(80, 640), 0);
    assert_eq!(center(80, 80), 0);
    // smaller than the terminal: centered by a margin
    assert_eq!(fit(60, 80, 7), (0, 10));
    assert_eq!(fit(80, 80, 7), (0, 0));
    // larger: kept inside
    assert_eq!(fit(640, 80, 7), (7, 0));
    assert_eq!(fit(640, 80, 560), (560, 0));
    assert_eq!(fit(640, 80, 561), (560, 0));
    assert_eq!(
        begin_frame(
            Controls { fps: 60, blend: false, osd: false, current_time: None, time_speed: 1, x: 900, y: 3 },
            86_400_000 + 777,
            extents(640, 40, 80, 48),
        ),
        FrameStart { time_of_day: 777, x: 560, y: 0, viewport_x: 0, viewport_y: 4 }
    );
    assert_eq!(
        begin_frame(
            Controls { fps: 60, blend: false, osd: false, current_time: Some(5), time_speed: 1, x: 0, y: 0 },
            777,
            extents(10, 10, 10, 10),
        )
        .time_of_day,
        5
    );
}

#[test]
fn viewport_panning() {
    let e = extents(640, 480, 80, 48);
    assert_eq!(pan(Command::Up, e, 5, 5), (5, 4));
    assert_eq!(pan(Command::Up, e, 5, 0), (5, 0));
    assert_eq!(pan(Command::Down, e, 5, 5), (5, 6));
    assert_eq!(pan(Command::Down, e, 5, 432), (5, 432));
    assert_eq!(pan(Command::Left, e, 5, 5), (4, 5));
    assert_eq!(pan(Command::Left, e, 0, 5), (0, 5));
    assert_eq!(pan(Command::Right, e, 5, 5), (6, 5));
    assert_eq!(pan(Command::Right, e, 560, 5), (560, 5));
    assert_eq!(pan(Command::Home, e, 77, 5), (0, 5));
    assert_eq!(pan(Command::End, e, 77, 5), (560, 5));
    assert_eq!(pan(Command::Top, e, 77, 5), (77, 0));
    assert_eq!(pan(Command::Bottom, e, 77, 5), (77, 432));
    assert_eq!(pan(Command::PageUp, e, 77, 30), (77, 6));
    assert_eq!(pan(Command::PageUp, e, 77, 24), (77, 0));
    assert_eq!(pan(Command::PageDown, e, 77, 30), (77, 54));
    assert_eq!(pan(Command::PageDown, e, 77, 420), (77, 432));
    assert_eq!(pan(Command::PageLeft, e, 77, 30), (37, 30));
    assert_eq!(pan(Command::PageLeft, e, 40, 30), (0, 30));
    assert_eq!(pan(Command::PageRight, e, 77, 30), (117, 30));
    assert_eq!(pan(Command::PageRight, e, 550, 30), (560, 30));
    assert_eq!(pan(Command::Quit, e, 77, 30), (77, 30));
    // an image that fits is not moved
    let small = extents(60, 40, 80, 48);
    for cmd in [Command::Up, Command::Down, Command::Left, Command::Right, Command::End, Command::Bottom, Command::PageDown, Command::PageRight] {
        assert_eq!(pan(cmd, small, 0, 0), (0, 0));
    }
    let huge = extents(u32::MAX, u32::MAX, 10, u32::MAX - 1);
    assert_eq!(pan(Command::PageRight, huge, u32::MAX - 12, 0), (u32::MAX - 10, 0));
    assert_eq!(pan(Command::PageDown, huge, 0, 0), (0, 1));
}

fn controls() -> Controls {
    Controls { fps: 60, blend: false, osd: true, current_time: None, time_speed: 1, x: 3, y: 4 }
}

fn scene() -> Scene {
    Scene {
        extents: extents(640, 480, 80, 48),
        file_index: 1,
        file_count: 3,
        time_of_day: 301_000,
        local_ms: 86_400_000 * 3 + 40_000,
    }
}

#[test]
fn commands_change_the_settings() {
    let c = controls();
    let s = scene();
    let r = apply_command(c, s, Command::ToggleBlend);
    assert_eq!(r.controls, Controls { blend: true, ..c });
    assert_eq!((r.action, r.notice, r.time_of_day), (Action::Continue, Some(Notice::BlendMode(true)), 301_000));
    let r = apply_command(c, s, Command::ToggleOsd);
    assert_eq!(r.controls, Controls { osd: false, ..c });
    assert_eq!(r.notice, Some(Notice::Osd(false)));
    let quiet = Controls { osd: false, ..c };
    let r = apply_command(quiet, s, Command::ToggleOsd);
    assert_eq!(r.controls, c);
    assert_eq!(r.notice, Some(Notice::Osd(true)));
    assert_eq!(apply_command(quiet, s, Command::ToggleBlend).notice, None);
    let r = apply_command(c, s, Command::FpsUp);
    assert_eq!((r.controls.fps, r.notice), (61, Some(Notice::Fps(61))));
    let r = apply_command(c, s, Command::FpsDown);
    assert_eq!((r.controls.fps, r.notice), (59, Some(Notice::Fps(59))));
    let r = apply_command(Controls { fps: MAX_FPS, ..c }, s, Command::FpsUp);
    assert_eq!((r.controls.fps, r.notice), (MAX_FPS, None));
    let r = apply_command(Controls { fps: 1, ..c }, s, Command::FpsDown);
    assert_eq!((r.controls.fps, r.notice), (1, None));
    assert_eq!(apply_command(c, s, Command::Quit).action, Action::Quit);
    assert_eq!(apply_command(c, s, Command::ColumnSwap).action, Action::SwapColumns);
    let r = apply_command(c, s, Command::PageDown);
    assert_eq!(r.controls, Controls { y: 28, ..c });
    assert_eq!((r.action, r.notice), (Action::Continue, None));
}

#[test]
fn commands_choose_files() {
    let c = controls();
    let s = scene();
    assert_eq!(apply_command(c, s, Command::NextFile).action, Action::Goto(2));
    assert_eq!(apply_command(c, s, Command::PrevFile).action, Action::Goto(0));
    assert_eq!(apply_command(c, s, Command::LastFile).action, Action::Goto(2));
    assert_eq!(apply_command(c, s, Command::OpenFile(0)).action, Action::Goto(0));
    assert_eq!(apply_command(c, s, Command::OpenFile(2)).action, Action::Goto(2));
    let r = apply_command(c, s, Command::OpenFile(3));
    assert_eq!((r.action, r.notice), (Action::Continue, Some(Notice::FileCount(3))));
    let last = Scene { file_index: 2, ..s };
    let r = apply_command(c, last, Command::NextFile);
    assert_eq!((r.action, r.notice), (Action::Continue, Some(Notice::LastFile)));
    let first = Scene { file_index: 0, ..s };
    let r = apply_command(c, first, Command::PrevFile);
    assert_eq!((r.action, r.notice), (Action::Continue, Some(Notice::FirstFile)));
    let none = Scene { file_index: 0, file_count: 0, ..s };
    assert_eq!(apply_command(c, none, Command::LastFile).action, Action::Continue);
}

#[test]
fn commands_move_through_time() {
    let c = Controls { time_speed: FAST_FORWARD_SPEED, ..controls() };
    let s = scene();
    let r = apply_command(c, s, Command::TimeBack(false));
    assert_eq!(r.controls, Controls { time_speed: 1, current_time: Some(300_000), ..c });
    assert_eq!((r.time_of_day, r.notice), (300_000, Some(Notice::Clock(300_000))));
    let r = apply_command(c, s, Command::TimeForward(true));
    assert_eq!(r.controls, Controls { time_speed: 1, current_time: Some(360_000), ..c });
    assert_eq!(r.time_of_day, 360_000);
    let held = Controls { current_time: Some(5), time_speed: 1, ..c };
    let r = apply_command(held, s, Command::RealTime);
    assert_eq!(r.controls, Controls { current_time: None, time_speed: 1, ..c });
    assert_eq!((r.time_of_day, r.notice), (40_000, Some(Notice::Clock(40_000))));
    let r = apply_command(held, s, Command::ToggleFastForward);
    assert_eq!(r.controls, Controls { current_time: None, time_speed: 10_000, ..c });
    assert_eq!(r.time_of_day, ((86_400_000u64 * 3 + 40_000) * 10_000) % 86_400_000);
    assert_eq!(r.notice, Some(Notice::FastForward(true)));
    let r = apply_command(c, s, Command::ToggleFastForward);
    assert_eq!(r.controls, Controls { current_time: Some(301_000), time_speed: 1, ..c });
    assert_eq!((r.time_of_day, r.notice), (301_000, Some(Notice::FastForward(false))));
}

#[test]
fn notices() {
    assert_eq!(notice_message(Notice::BlendMode(true)), " Blend Mode: Enabled ");
    assert_eq!(notice_message(Notice::BlendMode(false)), " Blend Mode: Disabled ");
    assert_eq!(notice_message(Notice::Osd(true)), " OSD: Enabled ");
    assert_eq!(notice_message(Notice::Osd(false)), " OSD: Disabled ");
    assert_eq!(notice_message(Notice::Fps(144)), " FPS: 144 ");
    assert_eq!(notice_message(Notice::LastFile), " Already at last file. ");
    assert_eq!(notice_message(Notice::FirstFile), " Already at first file. ");
    assert_eq!(notice_message(Notice::FileCount(3)), " Only 3 files opened! ");
    assert_eq!(notice_message(Notice::Clock(17 * 3_600_000 + 60_000)), " 17:01 ");
    assert_eq!(notice_message(Notice::FastForward(true)), " Fast Forward: ON ");
    assert_eq!(notice_message(Notice::FastForward(false)), " Fast Forward: OFF ");
}

#[test]
fn drawing_area() {
    assert_eq!(extent_from(Some((80, 24)), 640, 480), (80, 48));
    assert_eq!(extent_from(None, 640, 480), (640, 480));
    assert_eq!(extent_from(Some((usize::MAX, usize::MAX)), 1, 1), (u32::MAX, u32::MAX));
    assert_eq!(extent_from(Some((1, (u32::MAX / 2) as usize)), 1, 1), (1, u32::MAX - 1));
    // whatever the process is attached to, the area is that of some terminal or the image's
    let (w, h) = terminal_extent(640, 481);
    assert!((w, h) == (640, 481) || (w >= 1 && h >= 2 && h % 2 == 0));
}

#[test]
fn starting_settings_and_frame_length() {
    let args = Args {
        fps: 0,
        blend: true,
        osd: false,
        ilbm_column_swap: false,
        help_hotkeys: false,
        paths: vec![String::from("a.json")],
    };
    assert_eq!(
        args.controls(),
        Controls { fps: 1, blend: true, osd: false, current_time: None, time_speed: 1, x: 0, y: 0 }
    );
    assert_eq!(Args { fps: 20_000, ..args }.controls().fps, MAX_FPS);
    assert_eq!(sleep_nanos(60, 0), Some(16_666_666));
    assert_eq!(sleep_nanos(60, 16_000_000), Some(666_666));
    assert_eq!(sleep_nanos(60, 16_666_666), None);
    assert_eq!(sleep_nanos(1, 999_999_999), Some(1));
    assert_eq!(sleep_nanos(0, 0), Some(1_000_000_000));
    assert_eq!(sleep_nanos(10_000, 100_001), None);
}
