use vstd::prelude::*;
use crate::color::{red_color, spec_red_color, spec_white_color, white_color, Color};
use crate::fraction::{Fraction, Ratio};
use crate::pattern::{
    block_colors, generate_block_led_colors, generate_gradient_led_colors, gradient_colors,
};
use crate::sampler::Metric;

verus! {

/// The memory modules: a fill bar of the memory in use over all their LEDs.
pub const DOMINATOR_PLATINUM: &'static str = "Corsair Dominator Platinum";

/// The cooler and fan hub: a fill bar of the processor load on the pump
/// ring, then each fan in one colour.
pub const COMMANDER_CORE: &'static str = "Corsair Commander Core";

/// The mouse: one colour of the processor load.
pub const G502_HERO: &'static str = "G502 HERO Gaming Mouse";

/// The mainboard: left alone.
pub const MSI_X670E: &'static str = "MSI X670E GAMING PLUS WIFI (MS-7E16)";

/// The LEDs on the pump ring of the cooler.
pub const RING_LEDS: usize = 24;

/// The fans on the hub.
pub const FAN_COUNT: usize = 6;

/// The LEDs on each fan.
pub const FAN_LEDS: usize = 5;

/// How a run of LEDs is lit from one reading.
#[derive(Clone, Copy, Debug, PartialEq, Eq, Structural)]
pub enum Layout {
    /// A bar that fills with the reading.
    Gradient,
    /// One colour throughout.
    Block,
}

/// A run of `len` LEDs lit in one layout.
#[derive(Clone, Copy, Debug, PartialEq, Eq, Structural)]
pub struct Segment {
    pub layout: Layout,
    pub len: usize,
}

/// What the table holds for a device: its recipe, that it is left alone, or
/// nothing.
#[derive(Debug)]
pub enum DeviceRecipe {
    /// The device is lit: `metric` is blended from `start` to `end` over
    /// `segments`, in LED order.
    Lit { metric: Metric, start: Color, end: Color, segments: Vec<Segment> },
    /// The device is known and not to be touched.
    Excluded,
    /// The table does not hold the device.
    Unknown,
}

/// A `DeviceRecipe` as a value of the model.
pub enum RecipeModel {
    Lit { metric: Metric, start: Color, end: Color, segments: Seq<Segment> },
    Excluded,
    Unknown,
}

impl View for DeviceRecipe {
    type V = RecipeModel;

    open spec fn view(&self) -> RecipeModel {
        match *self {
            DeviceRecipe::Lit { metric, start, end, segments } => RecipeModel::Lit {
                metric,
                start,
                end,
                segments: segments@,
            },
            DeviceRecipe::Excluded => RecipeModel::Excluded,
            DeviceRecipe::Unknown => RecipeModel::Unknown,
        }
    }
}

/// The segments of the cooler and fan hub: the ring, then the fans.
pub open spec fn commander_core_segments() -> Seq<Segment> {
    seq![Segment { layout: Layout::Gradient, len: RING_LEDS }] + Seq::new(
        FAN_COUNT as nat,
        |i: int| Segment { layout: Layout::Block, len: FAN_LEDS },
    )
}

/// The table: what is done with the device called `name` that reports
/// `led_count` LEDs.
pub open spec fn recipe_model(name: Seq<char>, led_count: usize) -> RecipeModel {
    if name == DOMINATOR_PLATINUM@ {
        RecipeModel::Lit {
            metric: Metric::Memory,
            start: spec_white_color(),
            end: spec_red_color(),
            segments: seq![Segment { layout: Layout::Gradient, len: led_count }],
        }
    } else if name == COMMANDER_CORE@ {
        RecipeModel::Lit {
            metric: Metric::Cpu,
            start: spec_white_color(),
            end: spec_red_color(),
            segments: commander_core_segments(),
        }
    } else if name == G502_HERO@ {
        RecipeModel::Lit {
            metric: Metric::Cpu,
            start: spec_white_color(),
            end: spec_red_color(),
            segments: seq![Segment { layout: Layout::Block, len: led_count }],
        }
    } else if name == MSI_X670E@ {
        RecipeModel::Excluded
    } else {
        RecipeModel::Unknown
    }
}

/// The four names of the table are four different names.
pub proof fn lemma_names_differ()
    ensures
        DOMINATOR_PLATINUM@ != COMMANDER_CORE@,
        DOMINATOR_PLATINUM@ != G502_HERO@,
        DOMINATOR_PLATINUM@ != MSI_X670E@,
        COMMANDER_CORE@ != G502_HERO@,
        COMMANDER_CORE@ != MSI_X670E@,
        G502_HERO@ != MSI_X670E@,
{
    reveal_strlit("Corsair Dominator Platinum");
    reveal_strlit("Corsair Commander Core");
    reveal_strlit("G502 HERO Gaming Mouse");
    reveal_strlit("MSI X670E GAMING PLUS WIFI (MS-7E16)");
    assert(DOMINATOR_PLATINUM@.len() == 26);
    assert(COMMANDER_CORE@.len() == 22);
    assert(G502_HERO@.len() == 22);
    assert(MSI_X670E@.len() == 36);
    assert(COMMANDER_CORE@[0] == 'C');
    assert(G502_HERO@[0] == 'G');
}

/// The colours of one segment at `value`.
pub open spec fn segment_colors(segment: Segment, value: Ratio, start: Color, end: Color) -> Seq<
    Color,
> {
    match segment.layout {
        Layout::Gradient => gradient_colors(value, start, end, segment.len as nat),
        Layout::Block => block_colors(value, start, end, segment.len as nat),
    }
}

/// The colours of a run of segments at `value`: those of each segment, one
/// after the other.
pub open spec fn render_segments(
    segments: Seq<Segment>,
    value: Ratio,
    start: Color,
    end: Color,
) -> Seq<Color>
    decreases segments.len(),
{
    if segments.len() == 0 {
        Seq::empty()
    } else {
        render_segments(segments.drop_last(), value, start, end) + segment_colors(
            segments.last(),
            value,
            start,
            end,
        )
    }
}

/// The number of LEDs that a run of segments covers.
pub open spec fn total_len(segments: Seq<Segment>) -> nat
    decreases segments.len(),
{
    if segments.len() == 0 {
        0
    } else {
        total_len(segments.drop_last()) + segments.last().len as nat
    }
}

/// The cooler and fan hub gets one colour for each LED of its ring and fans.
pub proof fn lemma_commander_core_len()
    ensures
        total_len(commander_core_segments()) == RING_LEDS + FAN_COUNT * FAN_LEDS,
{
    let segments = commander_core_segments();
    let s6 = segments.drop_last();
    let s5 = s6.drop_last();
    let s4 = s5.drop_last();
    let s3 = s4.drop_last();
    let s2 = s3.drop_last();
    let s1 = s2.drop_last();
    assert(total_len(s1.drop_last()) == 0);
    assert(s1.last() == segments[0]);
    assert(total_len(s1) == RING_LEDS);
    assert(s2.last() == segments[1]);
    assert(total_len(s2) == RING_LEDS + FAN_LEDS);
    assert(s3.last() == segments[2]);
    assert(total_len(s3) == RING_LEDS + 2 * FAN_LEDS);
    assert(s4.last() == segments[3]);
    assert(total_len(s4) == RING_LEDS + 3 * FAN_LEDS);
    assert(s5.last() == segments[4]);
    assert(total_len(s5) == RING_LEDS + 4 * FAN_LEDS);
    assert(s6.last() == segments[5]);
    assert(total_len(s6) == RING_LEDS + 5 * FAN_LEDS);
    assert(segments.last() == segments[6]);
}

/// A run of segments gives one colour for each LED that it covers.
pub proof fn lemma_render_len(segments: Seq<Segment>, value: Ratio, start: Color, end: Color)
    ensures
        render_segments(segments, value, start, end).len() == total_len(segments),
    decreases segments.len(),
{
    if segments.len() > 0 {
        lemma_render_len(segments.drop_last(), value, start, end);
    }
}

fn same_name(name: &str, known: &str) -> (same: bool)
    ensures
        same == (name@ == known@),
{
    let name = name.to_owned();
    let known = known.to_owned();
    name == known
}

fn single(layout: Layout, len: usize) -> (segments: Vec<Segment>)
    ensures
        segments@ == seq![Segment { layout, len }],
{
    let mut segments: Vec<Segment> = Vec::new();
    segments.push(Segment { layout, len });
    assert(segments@ =~= seq![Segment { layout, len }]);
    segments
}

fn commander_core() -> (segments: Vec<Segment>)
    ensures
        segments@ == commander_core_segments(),
{
    let mut segments: Vec<Segment> = Vec::new();
    segments.push(Segment { layout: Layout::Gradient, len: RING_LEDS });
    let mut fan: usize = 0;
    while fan < FAN_COUNT
        invariant
            fan <= FAN_COUNT,
            segments@.len() == 1 + fan,
            segments@[0] == (Segment { layout: Layout::Gradient, len: RING_LEDS }),
            forall|i: int|
                1 <= i < segments@.len() ==> segments@[i] == (Segment {
                    layout: Layout::Block,
                    len: FAN_LEDS,
                }),
        decreases FAN_COUNT - fan,
    {
        segments.push(Segment { layout: Layout::Block, len: FAN_LEDS });
        fan += 1;
    }
    assert(segments@ =~= commander_core_segments());
    segments
}

/// Looks the device called `name` up in the table.
pub fn recipe_for(name: &str, led_count: usize) -> (recipe: DeviceRecipe)
    ensures
        recipe@ == recipe_model(name@, led_count),
{
    if same_name(name, DOMINATOR_PLATINUM) {
        DeviceRecipe::Lit {
            metric: Metric::Memory,
            start: white_color(),
            end: red_color(),
            segments: single(Layout::Gradient, led_count),
        }
    } else if same_name(name, COMMANDER_CORE) {
        DeviceRecipe::Lit {
            metric: Metric::Cpu,
            start: white_color(),
            end: red_color(),
            segments: commander_core(),
        }
    } else if same_name(name, G502_HERO) {
        DeviceRecipe::Lit {
            metric: Metric::Cpu,
            start: white_color(),
            end: red_color(),
            segments: single(Layout::Block, led_count),
        }
    } else if same_name(name, MSI_X670E) {
        DeviceRecipe::Excluded
    } else {
        DeviceRecipe::Unknown
    }
}

/// Lights a run of segments from one reading, in LED order.
pub fn render(segments: &Vec<Segment>, value: Fraction, start: &Color, end: &Color) -> (colors:
    Vec<Color>)
    ensures
        colors@ == render_segments(segments@, value@, *start, *end),
        colors@.len() == total_len(segments@),
{
    let mut colors: Vec<Color> = Vec::new();
    let mut done: usize = 0;
    while done < segments.len()
        invariant
            done <= segments@.len(),
            colors@ == render_segments(segments@.take(done as int), value@, *start, *end),
        decreases segments@.len() - done,
    {
        let segment = segments[done];
        let mut part = match segment.layout {
            Layout::Gradient => generate_gradient_led_colors(value, start, end, segment.len),
            Layout::Block => generate_block_led_colors(value, start, end, segment.len),
        };
        colors.append(&mut part);
        proof {
            assert(segments@.take(done + 1).drop_last() =~= segments@.take(done as int));
        }
        done += 1;
    }
    proof {
        assert(segments@.take(done as int) =~= segments@);
        lemma_render_len(segments@, value@, *start, *end);
    }
    colors
}

} // verus!
