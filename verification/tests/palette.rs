use color_cycle::color::Rgb;
use color_cycle::image::{IndexedImage, RgbImage};
use color_cycle::palette::{blend, blend_rgb, ColorCycle, Palette};
use color_cycle::world::{
    find_bracket, Bracket, CycleImage, LivingWorld, PaletteCycles, TimelineEvent, DAY_DURATION,
};

fn ramp(step: u8) -> Palette {
    let colors: Vec<Rgb> = (0..=255u8)
        .map(|i| Rgb::new(i, i.wrapping_mul(step), 255 - i))
        .collect();
    Palette::from_colors(&colors)
}

fn entries(p: &Palette) -> Vec<Rgb> {
    (0..=255u8).map(|i| p.get(i)).collect()
}

#[test]
fn palette_from_colors_pads_and_cuts() {
    let p = Palette::from_colors(&vec![Rgb::new(1, 2, 3), Rgb::new(4, 5, 6)]);
    assert_eq!(p.get(0), Rgb::new(1, 2, 3));
    assert_eq!(p.get(1), Rgb::new(4, 5, 6));
    assert_eq!(p.get(2), Rgb::new(0, 0, 0));
    assert_eq!(p.get(255), Rgb::new(0, 0, 0));
    let many: Vec<Rgb> = (0..300u32).map(|i| Rgb::new((i % 256) as u8, 7, 7)).collect();
    let p = Palette::from_colors(&many);
    assert_eq!(p.get(255), Rgb::new(255, 7, 7));
    let mut q = Palette::new();
    q.set(9, Rgb::new(9, 9, 9));
    assert_eq!(q.get(9), Rgb::new(9, 9, 9));
    assert_eq!(q.get(8), Rgb::new(0, 0, 0));
    assert_eq!(entries(&q.clone()), entries(&q));
}

#[test]
fn blend_boundaries() {
    let first = ramp(3);
    let second = ramp(7);
    let mut out = Palette::new();
    blend(&first, &second, 0, 1000, &mut out);
    assert_eq!(entries(&out), entries(&first));
    blend(&first, &second, 1000, 1000, &mut out);
    assert_eq!(entries(&out), entries(&second));
    blend(&first, &second, 500, 1000, &mut out);
    for i in 0..=255u8 {
        let a = first.get(i);
        let b = second.get(i);
        let avg = |x: u8, y: u8| ((x as u16 + y as u16 + 1) / 2) as u8;
        assert_eq!(out.get(i), Rgb::new(avg(a.r, b.r), avg(a.g, b.g), avg(a.b, b.b)));
    }
}

#[test]
fn blend_rounds_to_nearest() {
    let a = Rgb::new(0, 10, 255);
    let b = Rgb::new(255, 20, 0);
    // 255 / 4 = 63.75, 10 + 2.5 = 12.5, 255 * 3 / 4 = 191.25
    assert_eq!(blend_rgb(a, b, 1, 4), Rgb::new(64, 13, 191));
    assert_eq!(blend_rgb(a, b, 1, 3), Rgb::new(85, 13, 170));
    assert_eq!(blend_rgb(a, b, 1, 2), Rgb::new(128, 15, 128));
    // out of range: above one counts as one, no denominator as zero
    assert_eq!(blend_rgb(a, b, 5, 4), b);
    assert_eq!(blend_rgb(a, b, 5, 0), a);
    assert_eq!(blend_rgb(a, b, u64::MAX, u64::MAX), b);
    assert_eq!(blend_rgb(a, b, u64::MAX / 2, u64::MAX), Rgb::new(127, 15, 128));
}

fn cycle(start: u8, len: u16, rate: u32, reverse: bool) -> ColorCycle {
    ColorCycle { start, len, rate, reverse }
}

#[test]
fn cycle_period() {
    let src = ramp(1);
    let mut out = Palette::new();
    // 8 entries, one step per second: a full turn after 8 seconds
    let cycles = vec![cycle(16, 8, 1000, false)];
    out.apply_cycles_from(&src, &cycles, 8000, false);
    assert_eq!(entries(&out), entries(&src));
    out.apply_cycles_from(&src, &cycles, 0, false);
    assert_eq!(entries(&out), entries(&src));
    // half a turn after 4 seconds: each entry has the color from 4 places before
    out.apply_cycles_from(&src, &cycles, 4000, false);
    for j in 0..8u8 {
        assert_eq!(out.get(16 + j), src.get(16 + (j + 8 - 4) % 8));
    }
    assert_eq!(out.get(15), src.get(15));
    assert_eq!(out.get(24), src.get(24));
}

#[test]
fn cycle_steps_and_direction() {
    let src = ramp(1);
    let mut out = Palette::new();
    let forward = vec![cycle(0, 4, 1000, false)];
    out.apply_cycles_from(&src, &forward, 1000, false);
    assert_eq!(
        vec![out.get(0), out.get(1), out.get(2), out.get(3)],
        vec![src.get(3), src.get(0), src.get(1), src.get(2)]
    );
    let backward = vec![cycle(0, 4, 1000, true)];
    out.apply_cycles_from(&src, &backward, 1000, false);
    assert_eq!(
        vec![out.get(0), out.get(1), out.get(2), out.get(3)],
        vec![src.get(1), src.get(2), src.get(3), src.get(0)]
    );
    // rounding: 1.4 steps is one step, 1.5 steps are two
    out.apply_cycles_from(&src, &forward, 1400, false);
    assert_eq!(out.get(1), src.get(0));
    out.apply_cycles_from(&src, &forward, 1500, false);
    assert_eq!(out.get(2), src.get(0));
    // 3.5 steps round to a full turn
    out.apply_cycles_from(&src, &forward, 3500, false);
    assert_eq!(entries(&out), entries(&src));
    // a rate of 500 is half a step per second
    let slow = vec![cycle(0, 4, 500, false)];
    out.apply_cycles_from(&src, &slow, 2000, false);
    assert_eq!(out.get(1), src.get(0));
}

#[test]
fn cycle_blended() {
    let mut colors = vec![Rgb::new(0, 0, 0); 256];
    colors[10] = Rgb::new(100, 0, 0);
    colors[11] = Rgb::new(200, 0, 0);
    colors[12] = Rgb::new(0, 100, 0);
    let src = Palette::from_colors(&colors);
    let mut out = Palette::new();
    let cycles = vec![cycle(10, 3, 1000, false)];
    // a quarter of a step: three parts of the color in place, one of the one before
    out.apply_cycles_from(&src, &cycles, 250, true);
    assert_eq!(out.get(10), Rgb::new(75, 25, 0));
    assert_eq!(out.get(11), Rgb::new(175, 0, 0));
    assert_eq!(out.get(12), Rgb::new(50, 75, 0));
    // whole steps are the same with and without blending
    out.apply_cycles_from(&src, &cycles, 2000, true);
    let mut plain = Palette::new();
    plain.apply_cycles_from(&src, &cycles, 2000, false);
    assert_eq!(entries(&out), entries(&plain));
}

#[test]
fn cycles_overlap_and_are_cut_at_the_end() {
    let src = ramp(1);
    let mut out = Palette::new();
    // both start from the source; the later one decides where they overlap
    let cycles = vec![cycle(0, 4, 1000, false), cycle(2, 4, 1000, true)];
    out.apply_cycles_from(&src, &cycles, 1000, false);
    assert_eq!(out.get(0), src.get(3));
    assert_eq!(out.get(1), src.get(0));
    assert_eq!(out.get(2), src.get(3));
    assert_eq!(out.get(3), src.get(4));
    assert_eq!(out.get(4), src.get(5));
    assert_eq!(out.get(5), src.get(2));
    // a range that reaches beyond the palette ends with it
    let cycles = vec![cycle(254, 10, 1000, false)];
    out.apply_cycles_from(&src, &cycles, 1000, false);
    assert_eq!(out.get(254), src.get(255));
    assert_eq!(out.get(255), src.get(254));
    assert_eq!(out.get(253), src.get(253));
    // empty and single ranges change nothing
    let cycles = vec![cycle(5, 0, 1000, false), cycle(9, 1, 1000, true)];
    out.apply_cycles_from(&src, &cycles, 1234, true);
    assert_eq!(entries(&out), entries(&src));
}

fn event(time_of_day: u64, palette_index: usize) -> TimelineEvent {
    TimelineEvent { time_of_day, palette_index }
}

#[test]
fn timeline_wraparound() {
    let timeline = vec![event(1000, 0), event(5000, 1)];
    let b = find_bracket(&timeline, 86_399_999).unwrap();
    assert_eq!(b, Bracket { prev: 1, next: 0, elapsed: 86_394_999, span: 86_396_000 });
    // before the first event the bracket comes from the day before
    let b = find_bracket(&timeline, 400).unwrap();
    assert_eq!(b, Bracket { prev: 1, next: 0, elapsed: 86_395_400, span: 86_396_000 });
    // at the last event the way to the next day begins
    let b = find_bracket(&timeline, 5000).unwrap();
    assert_eq!(b, Bracket { prev: 1, next: 0, elapsed: 0, span: 86_396_000 });
}

#[test]
fn timeline_between_events() {
    let timeline = vec![event(1000, 0), event(5000, 1), event(9000, 0)];
    assert_eq!(
        find_bracket(&timeline, 1000).unwrap(),
        Bracket { prev: 0, next: 1, elapsed: 0, span: 4000 }
    );
    assert_eq!(
        find_bracket(&timeline, 4999).unwrap(),
        Bracket { prev: 0, next: 1, elapsed: 3999, span: 4000 }
    );
    assert_eq!(
        find_bracket(&timeline, 6000).unwrap(),
        Bracket { prev: 1, next: 2, elapsed: 1000, span: 4000 }
    );
    // times count modulo the day
    assert_eq!(find_bracket(&timeline, DAY_DURATION + 6000), find_bracket(&timeline, 6000));
    assert_eq!(find_bracket(&Vec::new(), 6000), None);
    // a single event brackets the whole day
    let single = vec![event(3000, 0)];
    assert_eq!(
        find_bracket(&single, 2000).unwrap(),
        Bracket { prev: 0, next: 0, elapsed: 86_399_000, span: 86_400_000 }
    );
    assert_eq!(
        find_bracket(&single, 3000).unwrap(),
        Bracket { prev: 0, next: 0, elapsed: 0, span: 86_400_000 }
    );
}

fn base_image() -> CycleImage {
    let image = IndexedImage::from_indices(2, 2, vec![0, 1, 2, 3], ramp(1)).unwrap();
    CycleImage::new(Some(String::from("Dawn")), image, vec![cycle(0, 4, 1000, false)])
}

fn flat(c: Rgb) -> PaletteCycles {
    PaletteCycles::new(Palette::from_colors(&vec![c; 256]), Vec::new())
}

#[test]
fn world_rejects_a_timeline_out_of_order() {
    let ok = LivingWorld::new(
        base_image(),
        vec![flat(Rgb::new(1, 1, 1)), flat(Rgb::new(2, 2, 2))],
        vec![event(0, 0), event(0, 1), event(86_399_999, 0)],
    );
    assert!(ok.is_some());
    let world = ok.unwrap();
    assert_eq!(world.timeline().len(), 3);
    assert_eq!(world.palettes().len(), 2);
    assert_eq!(world.name(), Some("Dawn"));
    assert_eq!(world.base().width(), 2);
    let late = LivingWorld::new(base_image(), vec![flat(Rgb::new(1, 1, 1))], vec![event(86_400_000, 0)]);
    assert!(late.is_none());
    let unordered = LivingWorld::new(
        base_image(),
        vec![flat(Rgb::new(1, 1, 1))],
        vec![event(5000, 0), event(1000, 0)],
    );
    assert!(unordered.is_none());
    let missing = LivingWorld::new(base_image(), vec![flat(Rgb::new(1, 1, 1))], vec![event(5000, 1)]);
    assert!(missing.is_none());
}

#[test]
fn world_palette_follows_the_timeline() {
    let world = LivingWorld::new(
        base_image(),
        vec![flat(Rgb::new(0, 0, 0)), flat(Rgb::new(200, 100, 50))],
        vec![event(1000, 0), event(5000, 1)],
    )
    .unwrap();
    let mut out = Palette::new();
    world.palette_at(1000, 0, false, &mut out);
    assert_eq!(out.get(7), Rgb::new(0, 0, 0));
    world.palette_at(3000, 0, false, &mut out);
    assert_eq!(out.get(7), Rgb::new(100, 50, 25));
    world.palette_at(4000, 0, false, &mut out);
    assert_eq!(out.get(7), Rgb::new(150, 75, 38));
    // from the last event on the image fades back towards the first
    world.palette_at(5000, 0, false, &mut out);
    assert_eq!(out.get(7), Rgb::new(200, 100, 50));
    world.palette_at(5000 + 43_198_000, 0, false, &mut out);
    assert_eq!(out.get(7), Rgb::new(100, 50, 25));
}

#[test]
fn world_without_timeline_cycles_its_base_palette() {
    let world = LivingWorld::from_image(base_image());
    let mut out = Palette::new();
    world.palette_at(12345, 1000, false, &mut out);
    let src = ramp(1);
    assert_eq!(out.get(0), src.get(3));
    assert_eq!(out.get(1), src.get(0));
    assert_eq!(out.get(4), src.get(4));
}

#[test]
fn indexed_image_accessors() {
    let img = IndexedImage::from_indices(3, 2, vec![0, 1, 2, 3, 4, 5], ramp(1)).unwrap();
    assert_eq!((img.width(), img.height()), (3, 2));
    assert_eq!(img.get_index(2, 1), 5);
    assert_eq!(img.get_index(0, 1), 3);
    assert_eq!(img.palette().get(4), ramp(1).get(4));
    assert!(IndexedImage::from_indices(3, 2, vec![0; 5], ramp(1)).is_none());
    assert!(IndexedImage::from_indices(0, 2, vec![], ramp(1)).is_some());
    let zero = IndexedImage::new(2, 2, ramp(1));
    assert_eq!(zero.get_index(1, 1), 0);
    let frame = img.blank_frame();
    assert_eq!((frame.width(), frame.height()), (3, 2));
    assert_eq!(frame.get_pixel(2, 1), Rgb::new(0, 0, 0));
}

#[test]
fn viewport_is_cut_to_the_image() {
    let data: Vec<u8> = (0..20).collect();
    let img = IndexedImage::from_indices(5, 4, data, ramp(1)).unwrap();
    let part = img.get_rect(1, 1, 3, 2);
    assert_eq!((part.width(), part.height()), (3, 2));
    assert_eq!(
        (0..2).flat_map(|y| (0..3).map(move |x| (x, y))).map(|(x, y)| part.get_index(x, y)).collect::<Vec<u8>>(),
        vec![6, 7, 8, 11, 12, 13]
    );
    let part = img.get_rect(3, 2, 10, 10);
    assert_eq!((part.width(), part.height()), (2, 2));
    assert_eq!(part.get_index(1, 1), 19);
    let part = img.get_rect(7, 0, 2, 2);
    assert_eq!((part.width(), part.height()), (0, 2));
    let mut view = IndexedImage::new(1, 1, Palette::new());
    view.get_rect_from(0, 3, 5, 5, &img);
    assert_eq!((view.width(), view.height()), (5, 1));
    assert_eq!(view.get_index(4, 0), 19);
    assert_eq!(view.palette().get(3), ramp(1).get(3));
}

#[test]
fn column_swap_mirrors_groups_of_eight() {
    let data: Vec<u8> = (0..20).chain(100..120).collect();
    let mut img = IndexedImage::from_indices(20, 2, data.clone(), ramp(1)).unwrap();
    img.column_swap();
    let row = |img: &IndexedImage, y: u32| (0..20).map(|x| img.get_index(x, y)).collect::<Vec<u8>>();
    assert_eq!(
        row(&img, 0),
        vec![7, 6, 5, 4, 3, 2, 1, 0, 15, 14, 13, 12, 11, 10, 9, 8, 16, 17, 18, 19]
    );
    assert_eq!(row(&img, 1)[0], 107);
    assert_eq!(row(&img, 1)[19], 119);
    img.column_swap();
    assert_eq!(row(&img, 0), (0..20).collect::<Vec<u8>>());
    assert_eq!(row(&img, 1), (100..120).collect::<Vec<u8>>());
}

#[test]
fn compositor_maps_indices_through_the_palette() {
    let img = IndexedImage::from_indices(2, 2, vec![0, 5, 255, 5], ramp(1)).unwrap();
    let palette = ramp(2);
    let mut frame = RgbImage::new(7, 1);
    img.apply_with_palette(&mut frame, &palette);
    assert_eq!((frame.width(), frame.height()), (2, 2));
    assert_eq!(frame.get_pixel(0, 0), palette.get(0));
    assert_eq!(frame.get_pixel(1, 0), palette.get(5));
    assert_eq!(frame.get_pixel(0, 1), palette.get(255));
    assert_eq!(frame.get_pixel(1, 1), Rgb::new(5, 10, 250));
}
