use color_cycle::color::Rgb;
use color_cycle::error::Error;
use color_cycle::image::IndexedImage;
use color_cycle::input::DecoderState;
use color_cycle::palette::Palette;
use color_cycle::playback::{Action, Controls, Extents, Notice, Scene};
use color_cycle::session::{process_input, Clock, Session};
use color_cycle::stage::{open_world, placeholder_world, plan_shot, Shot, Stage};
use color_cycle::status::{
    empty_image_message, failed_message, opened_message, push_cursor_to, push_margins,
    push_overlay, Banner, Margins, OverlayStep,
};
use color_cycle::world::{CycleImage, LivingWorld};

fn palette() -> Palette {
    Palette::from_colors(&vec![
        Rgb::new(0, 0, 0),
        Rgb::new(1, 2, 3),
        Rgb::new(10, 20, 30),
        Rgb::new(40, 50, 60),
    ])
}

fn world(width: u32, height: u32, data: Vec<u8>, name: Option<&str>) -> LivingWorld {
    let image = IndexedImage::from_indices(width, height, data, palette()).unwrap();
    LivingWorld::from_image(CycleImage::new(name.map(String::from), image, Vec::new()))
}

fn controls(osd: bool) -> Controls {
    Controls { fps: 60, blend: false, osd, current_time: Some(0), time_speed: 1, x: 0, y: 0 }
}

fn clock(now: u64) -> Clock {
    Clock { local_ms: 1_000, now, elapsed_ms: now }
}

#[test]
fn cursor_positions_and_messages() {
    let mut out = String::new();
    push_cursor_to(&mut out, 12, 1);
    assert_eq!(out, "\x1B[12;1H");
    assert_eq!(opened_message(Some("Dawn"), "dawn.json"), " Dawn (dawn.json) ");
    assert_eq!(opened_message(None, "dawn.json"), " dawn.json ");
    assert_eq!(empty_image_message("x.lbm", 0, 25), " x.lbm: image of size 0 x 25 ");
    assert_eq!(
        failed_message("x.lbm", &Error::with_cause("IO error", "gone")),
        " x.lbm: IO error: gone "
    );
}

#[test]
fn overlay_is_centered_on_the_bottom_row() {
    let mut out = String::new();
    push_overlay(&mut out, " FPS: 61 ", 80, 48);
    assert_eq!(out, "\x1B[24;36H\x1B[38;2;255;255;255m\x1B[48;2;0;0;0m FPS: 61 ");
    let mut out = String::new();
    push_overlay(&mut out, "0123456789", 4, 5);
    assert_eq!(out, "\x1B[3;1H\x1B[38;2;255;255;255m\x1B[48;2;0;0;0m0123");
    let mut out = String::new();
    push_overlay(&mut out, "äöü", 3, 2);
    assert_eq!(out, "\x1B[1;1H\x1B[38;2;255;255;255m\x1B[48;2;0;0;0mäöü");
    let mut out = String::new();
    push_overlay(&mut out, "äöü", 2, 2);
    assert_eq!(out, "\x1B[1;1H\x1B[38;2;255;255;255m\x1B[48;2;0;0;0mäö");
    let mut out = String::new();
    push_overlay(&mut out, "ab", 5, 2);
    assert_eq!(out, "\x1B[1;2H\x1B[38;2;255;255;255m\x1B[48;2;0;0;0mab");
}

#[test]
fn margins_are_cleared_around_a_small_image() {
    let mut out = String::new();
    push_margins(
        &mut out,
        Margins { x: 10, y: 4, width: 60, height: 3, term_width: 80, term_height: 48 },
    );
    assert_eq!(
        out,
        "\x1B[38;2;0;0;0m\x1B[48;2;0;0;0m\x1B[3;1H\x1B[1J\
         \x1B[3;10H\x1B[1K\x1B[4;10H\x1B[1K\
         \x1B[3;71H\x1B[0K\x1B[4;71H\x1B[0K\
         \x1B[5;1H\x1B[0J"
    );
    // flush with the upper left corner: only right and below
    let mut out = String::new();
    push_margins(
        &mut out,
        Margins { x: 0, y: 0, width: 3, height: 2, term_width: 4, term_height: 6 },
    );
    assert_eq!(out, "\x1B[38;2;0;0;0m\x1B[48;2;0;0;0m\x1B[1;4H\x1B[0K\x1B[2;1H\x1B[0J");
    // an image that covers the area needs none
    let mut out = String::from("keep");
    push_margins(
        &mut out,
        Margins { x: 0, y: 0, width: 80, height: 48, term_width: 80, term_height: 48 },
    );
    assert_eq!(out, "keep");
}

#[test]
fn banner_lifetime() {
    let mut b = Banner::new();
    assert_eq!((b.message.as_str(), b.until, b.shown), ("", 0, false));
    assert_eq!(b.settle(0, false, 0), OverlayStep::Draw);
    assert!(b.shown);
    assert_eq!(b.settle(1, false, 0), OverlayStep::Hide);
    assert!(!b.shown);
    assert_eq!(b.settle(2, false, 0), OverlayStep::Rest);
    b.post(String::from(" long message "), 1_000);
    assert_eq!(b.until, 4_000);
    assert_eq!(b.settle(1_000, true, 0), OverlayStep::Draw);
    assert_eq!(b.settle(4_000, false, 14), OverlayStep::Draw);
    b.post(String::from(" short "), 4_000);
    b.shown = false;
    assert_eq!(b.settle(4_000, true, 14), OverlayStep::Redraw);
    assert!(b.shown);
    assert_eq!(b.settle(4_016, false, 7), OverlayStep::Draw);
    assert_eq!(b.settle(7_001, false, 7), OverlayStep::Hide);
    b.post(String::from("late"), u64::MAX - 5);
    assert_eq!(b.until, u64::MAX);
    b.post_error(String::from(" broken "));
    assert_eq!((b.message.as_str(), b.until), (" broken ", u64::MAX));
    assert_eq!(b.settle(u64::MAX, false, 8), OverlayStep::Draw);
}

#[test]
fn opening_a_world() {
    let mut banner = Banner::new();
    let w = open_world(Ok(world(2, 2, vec![1, 2, 1, 3], Some("Dawn"))), "dawn.json", true, 500, &mut banner);
    assert_eq!((w.base().width(), w.base().height()), (2, 2));
    assert_eq!((banner.message.as_str(), banner.until), (" Dawn (dawn.json) ", 3_500));
    let mut banner = Banner::new();
    open_world(Ok(world(2, 2, vec![1, 2, 1, 3], None)), "dawn.json", true, 500, &mut banner);
    assert_eq!(banner.message, " dawn.json ");
    let mut banner = Banner::new();
    open_world(Ok(world(2, 2, vec![1, 2, 1, 3], None)), "dawn.json", false, 500, &mut banner);
    assert_eq!((banner.message.as_str(), banner.until), ("", 0));
    let mut banner = Banner::new();
    let w = open_world(Ok(world(0, 7, vec![], None)), "empty.lbm", false, 500, &mut banner);
    assert_eq!((w.base().width(), w.base().height()), (80, 25));
    assert_eq!(
        (banner.message.as_str(), banner.until),
        (" empty.lbm: image of size 0 x 7 ", u64::MAX)
    );
    let mut banner = Banner::new();
    let w = open_world(Err(Error::new("unsupported file format")), "x.png", false, 500, &mut banner);
    assert_eq!((w.base().width(), w.base().height()), (80, 25));
    assert_eq!(w.name(), None);
    assert_eq!(w.base().cycles().len(), 0);
    assert_eq!(w.timeline().len(), 0);
    assert_eq!(w.base().indexed_image().get_index(79, 24), 0);
    assert_eq!(w.base().palette().get(0), Rgb::new(0, 0, 0));
    assert_eq!(
        (banner.message.as_str(), banner.until),
        (" x.png: unsupported file format ", u64::MAX)
    );
    let p = placeholder_world();
    assert_eq!((p.base().width(), p.base().height()), (80, 25));
}

fn scene(file_index: usize, file_count: usize) -> Scene {
    Scene {
        extents: Extents { img_width: 640, img_height: 480, term_width: 80, term_height: 48 },
        file_index,
        file_count,
        time_of_day: 301_000,
        local_ms: 40_000,
    }
}

#[test]
fn input_of_a_frame() {
    let c = controls(true);
    let r = process_input(c, DecoderState::Ground, scene(0, 3), &b"b+\x1b[B\x1b[Bi".to_vec());
    assert_eq!(r.controls, Controls { blend: true, fps: 61, y: 2, ..c });
    assert_eq!(r.action, Action::Continue);
    assert_eq!(r.notice, Some(Notice::Fps(61)));
    assert!(r.swap_columns);
    assert_eq!(r.consumed, 9);
    assert_eq!(r.decoder, DecoderState::Ground);
    // two swaps undo each other
    let r = process_input(c, DecoderState::Ground, scene(0, 3), &b"ii".to_vec());
    assert!(!r.swap_columns);
    // input stops at the command that opens a file
    let r = process_input(c, DecoderState::Ground, scene(0, 3), &b"bnbq".to_vec());
    assert_eq!(r.action, Action::Goto(1));
    assert_eq!(r.controls.blend, true);
    assert_eq!(r.consumed, 2);
    // time commands build on each other
    let r = process_input(c, DecoderState::Ground, scene(0, 3), &b"dD".to_vec());
    assert_eq!(r.time_of_day, 660_000);
    assert_eq!(r.controls.current_time, Some(660_000));
    assert_eq!(r.notice, Some(Notice::Clock(660_000)));
    // an escape at the end of the input quits
    let r = process_input(c, DecoderState::Ground, scene(0, 3), &b"b\x1b".to_vec());
    assert_eq!((r.action, r.consumed), (Action::Quit, 2));
    // a sequence continues from the frame before
    let r = process_input(c, DecoderState::Csi, scene(0, 3), &b"B".to_vec());
    assert_eq!(r.controls.y, 1);
    // a sequence cut off by the end of the input is dropped
    let r = process_input(c, DecoderState::Ground, scene(0, 3), &b"\x1b[5".to_vec());
    assert_eq!((r.action, r.decoder, r.consumed), (Action::Continue, DecoderState::Ground, 3));
    let r = process_input(c, DecoderState::Ground, scene(0, 3), &Vec::new());
    assert_eq!((r.action, r.consumed, r.notice), (Action::Continue, 0, None));
    // without status messages only the switch for them speaks
    let r = process_input(controls(false), DecoderState::Ground, scene(0, 3), &b"b+o".to_vec());
    assert_eq!(r.notice, Some(Notice::Osd(true)));
}

fn shot(term_width: u32, term_height: u32, viewport_x: u32, viewport_y: u32, restore: bool) -> Shot {
    Shot {
        x: 0,
        y: 0,
        viewport_x,
        viewport_y,
        term_width,
        term_height,
        time_of_day: 0,
        elapsed_ms: 0,
        blend: false,
        restore,
    }
}

const IMAGE: &str = "\x1B[38;2;1;2;3m█\x1B[48;2;10;20;30m\x1B[38;2;40;50;60m▄";
const BLACK_ROW: &str = "\x1B[38;2;0;0;0m\x1B[48;2;0;0;0m\x1B[2K";
const WHITE_ON_BLACK: &str = "\x1B[38;2;255;255;255m\x1B[48;2;0;0;0m";

#[test]
fn stage_draws_in_full_only_when_the_size_changed() {
    let mut stage = Stage::new(world(2, 2, vec![1, 2, 1, 3], None), 2, 2);
    assert_eq!((stage.term_width, stage.term_height), (2, 2));
    // same size as at the start: the difference to the black frame
    let mut out = String::from(">");
    stage.draw(shot(2, 2, 0, 0, false), &mut out);
    assert_eq!(out, format!(">\x1B[1;1H{IMAGE}"));
    assert_eq!(stage.prev_frame.get_pixel(1, 1), Rgb::new(40, 50, 60));
    // nothing changed: only the cursor is placed
    let mut out = String::new();
    stage.draw(shot(2, 2, 0, 0, false), &mut out);
    assert_eq!(out, "\x1B[1;1H");
    // another size: margins are cleared and the image is written in full
    let mut out = String::new();
    stage.draw(shot(6, 6, 2, 2, false), &mut out);
    assert_eq!(
        out,
        format!(
            "\x1B[38;2;0;0;0m\x1B[48;2;0;0;0m\x1B[2;1H\x1B[1J\x1B[2;2H\x1B[1K\x1B[2;5H\x1B[0K\x1B[3;1H\x1B[0J\
             \x1B[2;3H{IMAGE}\x1B[0m"
        )
    );
    assert_eq!((stage.term_width, stage.term_height), (6, 6));
    // the same size again: a difference, here an empty one
    let mut out = String::new();
    stage.draw(shot(6, 6, 2, 2, false), &mut out);
    assert_eq!(out, "\x1B[2;3H\x1B[2C");
    // the bottom row lies below the image: it is blacked out, the image stays
    let mut out = String::new();
    stage.draw(shot(6, 6, 2, 2, true), &mut out);
    assert_eq!(out, format!("\x1B[3;1H{BLACK_ROW}\x1B[2;3H\x1B[2C"));
    // the bottom row is the image's row: its cells are written again, as a difference
    stage.draw(shot(2, 2, 0, 0, false), &mut String::new());
    let mut out = String::new();
    stage.draw(shot(2, 2, 0, 0, true), &mut out);
    assert_eq!(out, format!("\x1B[1;1H{BLACK_ROW}\x1B[1;1H{IMAGE}"));
    let mut out = String::new();
    stage.draw(shot(2, 2, 0, 0, false), &mut out);
    assert_eq!(out, "\x1B[1;1H");
}

#[test]
fn stage_follows_the_viewport() {
    let data: Vec<u8> = vec![1, 1, 2, 2, 1, 1, 2, 2];
    let mut stage = Stage::new(world(4, 2, data, None), 2, 2);
    assert_eq!(stage.viewport.get_index(0, 0), 1);
    assert_eq!(stage.viewport.get_index(1, 0), 2);
    let planned = plan_shot(
        Controls { x: 2, blend: true, ..controls(false) },
        color_cycle::playback::FrameStart { time_of_day: 0, x: 1, y: 0, viewport_x: 0, viewport_y: 0 },
        Extents { img_width: 4, img_height: 2, term_width: 2, term_height: 2 },
        77,
        5,
        false,
    );
    assert_eq!(
        planned,
        Shot {
            x: 2,
            y: 0,
            viewport_x: 0,
            viewport_y: 0,
            term_width: 2,
            term_height: 2,
            time_of_day: 77,
            elapsed_ms: 5,
            blend: true,
            restore: false,
        }
    );
    let mut out = String::new();
    stage.draw(planned, &mut out);
    assert_eq!((stage.viewport.get_index(0, 0), stage.viewport.get_index(1, 0)), (2, 2));
    assert_eq!(out, "\x1B[1;1H\x1B[38;2;10;20;30m██");
}

#[test]
fn session_plays_frames() {
    let mut session = Session::open(
        Ok(world(2, 2, vec![1, 2, 1, 3], Some("Dawn"))),
        "dawn.json",
        controls(true),
        0,
        2,
        Some((2, 1)),
        100,
    );
    assert_eq!((session.stage.term_width, session.stage.term_height), (2, 2));
    assert_eq!(session.banner.message, " Dawn (dawn.json) ");
    assert!(session.banner.shown);
    // first frame: the image against the black frame, then the message
    let mut out = String::new();
    let r = session.frame((2, 2), clock(100), &Vec::new(), &mut out);
    assert_eq!(r, (Action::Continue, 0));
    assert_eq!(out, format!("\x1B[1;1H{IMAGE}\x1B[1;1H{WHITE_ON_BLACK} D"));
    // a key posts a shorter message: the row is written anew, as a difference, then the message
    let mut out = String::new();
    let r = session.frame((2, 2), clock(200), &b"+".to_vec(), &mut out);
    assert_eq!(r, (Action::Continue, 1));
    assert_eq!(session.controls.fps, 61);
    assert_eq!(session.banner.message, " FPS: 61 ");
    assert_eq!(
        out,
        format!("\x1B[1;1H{BLACK_ROW}\x1B[1;1H{IMAGE}\x1B[1;1H{WHITE_ON_BLACK} F")
    );
    assert_eq!((session.stage.term_width, session.stage.term_height), (2, 2));
    // the size is the same and nothing changed: only the message is written
    let mut out = String::new();
    session.frame((2, 2), clock(300), &Vec::new(), &mut out);
    assert_eq!(out, format!("\x1B[1;1H\x1B[1;1H{WHITE_ON_BLACK} F"));
    // when the message runs out its row is written anew, still as a difference
    let mut out = String::new();
    session.frame((2, 2), clock(3_201), &Vec::new(), &mut out);
    assert_eq!(out, format!("\x1B[1;1H{BLACK_ROW}\x1B[1;1H{IMAGE}"));
    assert!(!session.banner.shown);
    assert_eq!((session.stage.term_width, session.stage.term_height), (2, 2));
    let mut out = String::new();
    session.frame((2, 2), clock(3_300), &Vec::new(), &mut out);
    assert_eq!(out, "\x1B[1;1H");
    // another size: the image is written in full
    let mut out = String::new();
    session.frame((3, 2), clock(3_350), &Vec::new(), &mut out);
    assert_eq!(
        out,
        format!("\x1B[38;2;0;0;0m\x1B[48;2;0;0;0m\x1B[1;3H\x1B[0K\x1B[1;1H{IMAGE}\x1B[0m")
    );
    assert_eq!((session.stage.term_width, session.stage.term_height), (3, 2));
    // commands that end the session draw nothing
    let mut out = String::from("keep");
    let r = session.frame((3, 2), clock(3_400), &b"nq".to_vec(), &mut out);
    assert_eq!(r, (Action::Goto(1), 1));
    assert_eq!(out, "keep");
    let r = session.frame((3, 2), clock(3_500), &b"\x1b".to_vec(), &mut out);
    assert_eq!(r, (Action::Quit, 1));
}

#[test]
fn session_shows_the_colors_of_its_world() {
    // the first frame of a world with cycles shows the cycled palette
    let image = IndexedImage::from_indices(2, 2, vec![1, 2, 1, 3], palette()).unwrap();
    let cycles = vec![color_cycle::palette::ColorCycle { start: 1, len: 3, rate: 1000, reverse: false }];
    let world = LivingWorld::from_image(CycleImage::new(None, image, cycles));
    let mut session = Session::open(Ok(world), "w.json", controls(false), 0, 1, Some((2, 1)), 0);
    let mut out = String::new();
    session.frame((2, 2), Clock { local_ms: 0, now: 1_000, elapsed_ms: 1_000 }, &Vec::new(), &mut out);
    // after one step index 1 shows the color of 3, 2 that of 1, 3 that of 2
    assert_eq!(
        out,
        "\x1B[1;1H\x1B[38;2;40;50;60m█\x1B[48;2;1;2;3m\x1B[38;2;10;20;30m▄"
    );
    assert_eq!(session.stage.world.base().cycles().len(), 1);
}

#[test]
fn session_swaps_columns_and_shows_errors() {
    let data: Vec<u8> = vec![1, 1, 1, 1, 2, 2, 2, 2, 3, 3];
    let mut session =
        Session::open(Ok(world(10, 1, data, None)), "w.lbm", controls(false), 0, 1, Some((10, 1)), 0);
    let mut out = String::new();
    session.frame((10, 2), clock(10), &b"i".to_vec(), &mut out);
    assert_eq!(session.stage.world.base().indexed_image().get_index(0, 0), 2);
    assert_eq!(session.stage.world.base().indexed_image().get_index(7, 0), 1);
    assert_eq!(session.stage.world.base().indexed_image().get_index(9, 0), 3);
    assert_eq!(session.stage.viewport.get_index(0, 0), 2);
    assert_eq!(
        out,
        "\x1B[1;1H\x1B[38;2;10;20;30m▀▀▀▀\x1B[38;2;1;2;3m▀▀▀▀\x1B[38;2;40;50;60m▀▀"
    );

    let mut failed = Session::open(
        Err(Error::with_cause("JSON error", "EOF")),
        "bad.json",
        controls(false),
        1,
        2,
        None,
        0,
    );
    assert_eq!((failed.stage.term_width, failed.stage.term_height), (80, 25));
    assert_eq!(failed.banner.message, " bad.json: JSON error: EOF ");
    assert_eq!(failed.banner.until, u64::MAX);
    let mut out = String::new();
    let r = failed.frame((80, 25), clock(1_000_000), &Vec::new(), &mut out);
    assert_eq!(r, (Action::Continue, 0));
    assert!(out.ends_with("\x1B[13;27H\x1B[38;2;255;255;255m\x1B[48;2;0;0;0m bad.json: JSON error: EOF "));
    assert!(out.starts_with("\x1B[1;1H\x1B[12B\x1B[13;27H"));
}

#[test]
fn session_on_the_terminal_at_hand() {
    let mut session =
        Session::open_here(Ok(world(2, 2, vec![1, 2, 1, 3], None)), "w.lbm", controls(false), 0, 1, 0);
    assert_eq!((session.file_index, session.file_count), (0, 1));
    let mut out = String::new();
    let r = session.tick(clock(10), &b"q".to_vec(), &mut out);
    assert_eq!(r, (Action::Quit, 1));
    assert_eq!(out, "");
    let r = session.tick(clock(20), &Vec::new(), &mut out);
    assert_eq!(r, (Action::Continue, 0));
    assert!(out.contains("\x1B[38;2;1;2;3m█"));
}
