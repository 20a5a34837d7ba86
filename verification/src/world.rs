//! An animated image: its pixels, its color cycles, and the timeline of
//! palettes that it changes through over the day.

use vstd::prelude::*;
use crate::color::Rgb;
use crate::image::{IndexedImage, IndexedView};
use crate::palette::{apply_cycles, blend, blend_palettes, ColorCycle, Palette};

verus! {

/// Length of a day in milliseconds.
pub const DAY_DURATION: u64 = 86_400_000;

/// An indexed image with the color cycles that animate its palette.
#[derive(Debug)]
pub struct CycleImage {
    name: Option<String>,
    image: IndexedImage,
    cycles: Vec<ColorCycle>,
}

impl CycleImage {
    pub closed spec fn image_view(&self) -> IndexedView {
        self.image@
    }

    pub closed spec fn cycles_view(&self) -> Seq<ColorCycle> {
        self.cycles@
    }

    pub closed spec fn name_view(&self) -> Option<Seq<char>> {
        match self.name {
            Some(n) => Some(n@),
            None => None,
        }
    }

    pub fn new(name: Option<String>, image: IndexedImage, cycles: Vec<ColorCycle>) -> (c:
        CycleImage)
        ensures
            c.image_view() == image@,
            c.cycles_view() == cycles@,
            c.name_view() == match name {
                Some(n) => Some(n@),
                None => None,
            },
    {
        CycleImage { name, image, cycles }
    }

    pub fn name(&self) -> (n: Option<&str>)
        ensures
            match n {
                Some(text) => self.name_view() == Some(text@),
                None => self.name_view() is None,
            },
    {
        match &self.name {
            Some(s) => Some(s.as_str()),
            None => None,
        }
    }

    pub fn indexed_image(&self) -> (i: &IndexedImage)
        ensures
            i@ == self.image_view(),
    {
        &self.image
    }

    pub fn palette(&self) -> (p: &Palette)
        ensures
            p@ == self.image_view().palette,
    {
        self.image.palette()
    }

    pub fn cycles(&self) -> (c: &Vec<ColorCycle>)
        ensures
            c@ == self.cycles_view(),
    {
        &self.cycles
    }

    pub fn width(&self) -> (w: u32)
        ensures
            w == self.image_view().width,
            self.image_view().wf(),
    {
        self.image.width()
    }

    pub fn height(&self) -> (h: u32)
        ensures
            h == self.image_view().height,
            self.image_view().wf(),
    {
        self.image.height()
    }

    /// Mirrors the columns of every full group of eight columns of the image.
    pub fn column_swap(&mut self)
        ensures
            final(self).image_view() == old(self).image_view().column_swapped(),
            final(self).cycles_view() == old(self).cycles_view(),
            final(self).name_view() == old(self).name_view(),
    {
        self.image.column_swap();
    }
}

/// A palette of the timeline together with its own color cycles.
#[derive(Debug)]
pub struct PaletteCycles {
    palette: Palette,
    cycles: Vec<ColorCycle>,
}

impl PaletteCycles {
    pub closed spec fn palette_view(&self) -> Seq<Rgb> {
        self.palette@
    }

    pub closed spec fn cycles_view(&self) -> Seq<ColorCycle> {
        self.cycles@
    }

    pub fn new(palette: Palette, cycles: Vec<ColorCycle>) -> (p: PaletteCycles)
        ensures
            p.palette_view() == palette@,
            p.cycles_view() == cycles@,
    {
        PaletteCycles { palette, cycles }
    }

    pub fn palette(&self) -> (p: &Palette)
        ensures
            p@ == self.palette_view(),
    {
        &self.palette
    }

    pub fn cycles(&self) -> (c: &Vec<ColorCycle>)
        ensures
            c@ == self.cycles_view(),
    {
        &self.cycles
    }
}

/// A point of the day from which on the image moves towards a palette.
#[derive(Clone, Copy, Debug, PartialEq, Eq, Structural)]
pub struct TimelineEvent {
    /// Time of day in milliseconds.
    pub time_of_day: u64,
    /// Which of the world's palettes is reached at that time.
    pub palette_index: usize,
}

/// A timeline is in order: every event lies inside the day and names one of
/// `palettes` palettes, and no event is earlier than the one before it.
pub open spec fn timeline_ordered(timeline: Seq<TimelineEvent>, palettes: nat) -> bool {
    &&& forall|i: int|
        0 <= i < timeline.len() ==> (#[trigger] timeline[i]).time_of_day < DAY_DURATION
            && timeline[i].palette_index < palettes
    &&& forall|i: int, j: int|
        0 <= i <= j < timeline.len() ==> (#[trigger] timeline[i]).time_of_day <= (
        #[trigger] timeline[j]).time_of_day
}

/// The two events around a time of day, and how far the time is from the
/// first to the second.
#[derive(Clone, Copy, Debug, PartialEq, Eq, Structural)]
pub struct Bracket {
    /// Index of the event that the time comes after.
    pub prev: usize,
    /// Index of the event that the time comes before.
    pub next: usize,
    /// Milliseconds from the first event to the time.
    pub elapsed: u64,
    /// Milliseconds from the first event to the second.
    pub span: u64,
}

/// How many events at the start of the timeline are not later than `time`.
pub open spec fn events_until(timeline: Seq<TimelineEvent>, time: int) -> int
    decreases timeline.len(),
{
    if timeline.len() == 0 {
        0
    } else if timeline.last().time_of_day <= time {
        timeline.len() as int
    } else {
        events_until(timeline.drop_last(), time)
    }
}

/// The bracket around `time` in a timeline that is not empty.
///
/// Between two events it is these two. Before the first event and from the
/// last event on it reaches around midnight, from the last event of one day
/// to the first event of the next.
pub open spec fn bracket_at(timeline: Seq<TimelineEvent>, time: int) -> Bracket {
    let n = timeline.len() as int;
    let k = events_until(timeline, time);
    if 0 < k < n {
        Bracket {
            prev: (k - 1) as usize,
            next: k as usize,
            elapsed: (time - timeline[k - 1].time_of_day) as u64,
            span: (timeline[k].time_of_day - timeline[k - 1].time_of_day) as u64,
        }
    } else {
        let last = timeline[n - 1].time_of_day;
        Bracket {
            prev: (n - 1) as usize,
            next: 0,
            elapsed: (if k == n {
                time - last
            } else {
                time + DAY_DURATION - last
            }) as u64,
            span: (DAY_DURATION - last + timeline[0].time_of_day) as u64,
        }
    }
}

/// In an ordered timeline exactly the first `events_until` events are not
/// later than `time`.
pub proof fn lemma_events_until(timeline: Seq<TimelineEvent>, palettes: nat, time: int)
    requires
        timeline_ordered(timeline, palettes),
    ensures
        0 <= events_until(timeline, time) <= timeline.len(),
        forall|i: int|
            0 <= i < events_until(timeline, time) ==> (#[trigger] timeline[i]).time_of_day <= time,
        forall|i: int|
            events_until(timeline, time) <= i < timeline.len() ==> (
            #[trigger] timeline[i]).time_of_day > time,
    decreases timeline.len(),
{
    if timeline.len() > 0 && timeline.last().time_of_day > time {
        let rest = timeline.drop_last();
        assert forall|i: int, j: int| 0 <= i <= j < rest.len() implies (
        #[trigger] rest[i]).time_of_day <= (#[trigger] rest[j]).time_of_day by {
            assert(rest[i] == timeline[i] && rest[j] == timeline[j]);
        }
        assert forall|i: int| 0 <= i < rest.len() implies (#[trigger] rest[i]).time_of_day
            < DAY_DURATION && rest[i].palette_index < palettes by {
            assert(rest[i] == timeline[i]);
        }
        lemma_events_until(rest, palettes, time);
        assert forall|i: int| 0 <= i < events_until(timeline, time) implies (
        #[trigger] timeline[i]).time_of_day <= time by {
            assert(rest[i] == timeline[i]);
        }
        assert forall|i: int| events_until(timeline, time) <= i < timeline.len() implies (
        #[trigger] timeline[i]).time_of_day > time by {
            if i < rest.len() {
                assert(rest[i] == timeline[i]);
            }
        }
    } else if timeline.len() > 0 {
        assert forall|i: int| 0 <= i < timeline.len() implies (
        #[trigger] timeline[i]).time_of_day <= time by {
            assert(timeline[i].time_of_day <= timeline[timeline.len() - 1].time_of_day);
        }
    }
}

/// The bracket around a time of day names two events of the timeline, is
/// longer than nothing, and holds the time.
pub proof fn lemma_bracket_at(timeline: Seq<TimelineEvent>, palettes: nat, time: int)
    requires
        timeline_ordered(timeline, palettes),
        timeline.len() > 0,
        timeline.len() <= usize::MAX,
        0 <= time < DAY_DURATION,
    ensures
        bracket_at(timeline, time).prev < timeline.len(),
        bracket_at(timeline, time).next < timeline.len(),
        0 < bracket_at(timeline, time).span <= 2 * DAY_DURATION,
        0 <= bracket_at(timeline, time).elapsed < bracket_at(timeline, time).span,
{
    lemma_events_until(timeline, palettes, time);
    let n = timeline.len() as int;
    let k = events_until(timeline, time);
    assert(timeline[0].time_of_day <= timeline[n - 1].time_of_day);
    if 0 < k < n {
        assert(timeline[k - 1].time_of_day <= time);
        assert(timeline[k].time_of_day > time);
    } else if k == n {
        assert(timeline[n - 1].time_of_day <= time);
    } else {
        assert(timeline[0].time_of_day > time);
    }
}

/// A base image and the palettes that it changes through over the day.
#[derive(Debug)]
pub struct LivingWorld {
    base: CycleImage,
    palettes: Vec<PaletteCycles>,
    timeline: Vec<TimelineEvent>,
}

impl LivingWorld {
    /// The timeline is in order and names palettes that the world has.
    pub closed spec fn wf(&self) -> bool {
        timeline_ordered(self.timeline@, self.palettes@.len())
    }

    pub closed spec fn base_view(&self) -> CycleImage {
        self.base
    }

    pub closed spec fn timeline_view(&self) -> Seq<TimelineEvent> {
        self.timeline@
    }

    pub closed spec fn palettes_view(&self) -> Seq<PaletteCycles> {
        self.palettes@
    }

    /// What a well-formed world is, over its parts.
    pub proof fn lemma_wf(&self)
        ensures
            self.wf() <==> timeline_ordered(self.timeline_view(), self.palettes_view().len()),
    {
    }

    /// A world that shows one image with one palette all day.
    pub fn from_image(image: CycleImage) -> (w: LivingWorld)
        ensures
            w.wf(),
            w.base_view() == image,
            w.timeline_view() == Seq::<TimelineEvent>::empty(),
            w.palettes_view() == Seq::<PaletteCycles>::empty(),
    {
        LivingWorld { base: image, palettes: Vec::new(), timeline: Vec::new() }
    }

    /// A world with a timeline. `None` unless the timeline is in order: each
    /// event inside the day and with a palette of `palettes`, and no event
    /// earlier than the one before it.
    pub fn new(base: CycleImage, palettes: Vec<PaletteCycles>, timeline: Vec<TimelineEvent>) -> (w:
        Option<LivingWorld>)
        ensures
            w is Some <==> timeline_ordered(timeline@, palettes@.len()),
            w matches Some(world) ==> world.wf() && world.base_view() == base
                && world.timeline_view() == timeline@ && world.palettes_view() == palettes@,
    {
        let mut i: usize = 0;
        while i < timeline.len()
            invariant
                i <= timeline@.len(),
                forall|k: int|
                    0 <= k < i ==> (#[trigger] timeline@[k]).time_of_day < DAY_DURATION
                        && timeline@[k].palette_index < palettes@.len(),
                forall|a: int, b: int|
                    0 <= a <= b < i ==> (#[trigger] timeline@[a]).time_of_day <= (
                    #[trigger] timeline@[b]).time_of_day,
            decreases timeline@.len() - i,
        {
            let e = timeline[i];
            if e.time_of_day >= DAY_DURATION || e.palette_index >= palettes.len() {
                return None;
            }
            if i > 0 && timeline[i - 1].time_of_day > e.time_of_day {
                return None;
            }
            proof {
                assert forall|a: int, b: int| 0 <= a <= b < i + 1 implies (
                #[trigger] timeline@[a]).time_of_day <= (#[trigger] timeline@[b]).time_of_day by {
                    if b == i && a < i {
                        assert(timeline@[a].time_of_day <= timeline@[i - 1].time_of_day);
                    }
                }
            }
            i += 1;
        }
        Some(LivingWorld { base, palettes, timeline })
    }

    pub fn base(&self) -> (b: &CycleImage)
        ensures
            *b == self.base_view(),
    {
        &self.base
    }

    pub fn name(&self) -> (n: Option<&str>)
        ensures
            match n {
                Some(text) => self.base_view().name_view() == Some(text@),
                None => self.base_view().name_view() is None,
            },
    {
        self.base.name()
    }

    pub fn timeline(&self) -> (t: &Vec<TimelineEvent>)
        ensures
            t@ == self.timeline_view(),
    {
        &self.timeline
    }

    pub fn palettes(&self) -> (p: &Vec<PaletteCycles>)
        ensures
            p@ == self.palettes_view(),
    {
        &self.palettes
    }

    /// Mirrors the columns of every full group of eight columns of the base
    /// image.
    pub fn column_swap(&mut self)
        ensures
            final(self).base_view().image_view() == old(self).base_view().image_view().column_swapped(),
            final(self).base_view().cycles_view() == old(self).base_view().cycles_view(),
            final(self).base_view().name_view() == old(self).base_view().name_view(),
            final(self).timeline_view() == old(self).timeline_view(),
            final(self).palettes_view() == old(self).palettes_view(),
            final(self).wf() == old(self).wf(),
    {
        self.base.column_swap();
    }
}

/// Finds the two events of `timeline` around `time_of_day`, which counts
/// modulo the length of a day.
pub fn find_bracket(timeline: &Vec<TimelineEvent>, time_of_day: u64) -> (b: Option<Bracket>)
    requires
        exists|palettes: nat| timeline_ordered(timeline@, palettes),
    ensures
        b is Some <==> timeline@.len() > 0,
        b matches Some(found) ==> found == bracket_at(
            timeline@,
            (time_of_day % DAY_DURATION) as int,
        ) && found.prev < timeline@.len() && found.next < timeline@.len() && 0 <= found.elapsed
            < found.span,
{
    let n = timeline.len();
    if n == 0 {
        return None;
    }
    let time = time_of_day % DAY_DURATION;
    let ghost palettes = choose|palettes: nat| timeline_ordered(timeline@, palettes);
    proof {
        lemma_events_until(timeline@, palettes, time as int);
        lemma_bracket_at(timeline@, palettes, time as int);
    }
    let mut k: usize = 0;
    while k < n && timeline[k].time_of_day <= time
        invariant
            k <= n,
            n == timeline@.len(),
            forall|i: int| 0 <= i < k ==> (#[trigger] timeline@[i]).time_of_day <= time,
        decreases n - k,
    {
        k += 1;
    }
    proof {
        let want = events_until(timeline@, time as int);
        if k < want {
            assert(timeline@[k as int].time_of_day <= time);
        }
        if want < k {
            assert(timeline@[want].time_of_day > time);
        }
        assert(k == want);
        assert(timeline@[0].time_of_day <= timeline@[n - 1].time_of_day);
    }
    if 0 < k && k < n {
        let prev = timeline[k - 1].time_of_day;
        Some(Bracket { prev: k - 1, next: k, elapsed: time - prev, span: timeline[k].time_of_day - prev })
    } else {
        let last = timeline[n - 1].time_of_day;
        let elapsed = if k == n {
            time - last
        } else {
            time + DAY_DURATION - last
        };
        Some(
            Bracket {
                prev: n - 1,
                next: 0,
                elapsed,
                span: DAY_DURATION - last + timeline[0].time_of_day,
            },
        )
    }
}

/// The palette that a world shows at a time of day, after `elapsed_ms`
/// milliseconds of playback.
///
/// Without a timeline it is the base image's palette with the base image's
/// cycles applied. With a timeline, the palettes of the two events around
/// the time of day each get their own cycles applied and are then cross-faded
/// by how far the time is from the first event to the second.
pub open spec fn active_palette(
    world: LivingWorld,
    time_of_day: int,
    elapsed_ms: int,
    blend: bool,
) -> Seq<Rgb> {
    let timeline = world.timeline_view();
    if timeline.len() == 0 {
        apply_cycles(
            world.base_view().image_view().palette,
            world.base_view().cycles_view(),
            elapsed_ms,
            blend,
        )
    } else {
        let b = bracket_at(timeline, time_of_day % (DAY_DURATION as int));
        let first = world.palettes_view()[timeline[b.prev as int].palette_index as int];
        let second = world.palettes_view()[timeline[b.next as int].palette_index as int];
        blend_palettes(
            apply_cycles(first.palette_view(), first.cycles_view(), elapsed_ms, blend),
            apply_cycles(second.palette_view(), second.cycles_view(), elapsed_ms, blend),
            b.elapsed as int,
            b.span as int,
        )
    }
}

impl LivingWorld {
    /// Computes the palette that the world shows at `time_of_day`, after
    /// `elapsed_ms` milliseconds of playback.
    pub fn palette_at(&self, time_of_day: u64, elapsed_ms: u64, blend_cycles: bool, out: &mut Palette)
        requires
            self.wf(),
        ensures
            final(out)@ == active_palette(*self, time_of_day as int, elapsed_ms as int, blend_cycles),
    {
        match find_bracket(&self.timeline, time_of_day) {
            None => {
                out.apply_cycles_from(self.base.palette(), self.base.cycles(), elapsed_ms, blend_cycles);
            },
            Some(b) => {
                let first = &self.palettes[self.timeline[b.prev].palette_index];
                let second = &self.palettes[self.timeline[b.next].palette_index];
                let mut cycled1 = Palette::new();
                let mut cycled2 = Palette::new();
                cycled1.apply_cycles_from(first.palette(), first.cycles(), elapsed_ms, blend_cycles);
                cycled2.apply_cycles_from(second.palette(), second.cycles(), elapsed_ms, blend_cycles);
                blend(&cycled1, &cycled2, b.elapsed, b.span, out);
            },
        }
    }
}

} // verus!
