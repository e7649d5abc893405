use vstd::prelude::*;
use crate::color::Color;
use crate::recipe::{
    lemma_commander_core_len, lemma_names_differ, lemma_render_len, recipe_for, recipe_model,
    render, render_segments, total_len, DeviceRecipe, RecipeModel, COMMANDER_CORE,
    DOMINATOR_PLATINUM, FAN_COUNT, FAN_LEDS, G502_HERO, MSI_X670E, RING_LEDS,
};
use crate::sampler::Readings;

verus! {

/// Why a device is passed over at a tick. It is to be logged, and is no error.
#[derive(Clone, Copy, Debug, PartialEq, Eq, Structural)]
pub enum PolicyWarning {
    /// The device reports no LEDs.
    NoLeds,
    /// The table does not hold the device.
    UnknownDevice,
}

/// What is done with one device at one tick.
#[derive(Debug)]
pub struct DeviceUpdate {
    /// The colours for the device, in LED order; none to leave it as it is.
    pub colors: Vec<Color>,
    /// What to log about the device, if anything.
    pub warning: Option<PolicyWarning>,
}

/// The table holds the device called `name`, lit or left alone.
pub open spec fn is_listed(name: Seq<char>) -> bool {
    ||| name == DOMINATOR_PLATINUM@
    ||| name == COMMANDER_CORE@
    ||| name == G502_HERO@
    ||| name == MSI_X670E@
}

/// What is logged about the device called `name` with `led_count` LEDs.
pub open spec fn device_warning(name: Seq<char>, led_count: usize) -> Option<PolicyWarning> {
    if led_count == 0 {
        Some(PolicyWarning::NoLeds)
    } else if !is_listed(name) {
        Some(PolicyWarning::UnknownDevice)
    } else {
        None
    }
}

/// The colours for the device called `name` with `led_count` LEDs: those of
/// its recipe at the reading that the recipe names, and none for a device
/// without LEDs, one left alone, or one that the table does not hold.
pub open spec fn device_colors(name: Seq<char>, led_count: usize, readings: Readings) -> Seq<
    Color,
> {
    if led_count == 0 {
        Seq::empty()
    } else {
        match recipe_model(name, led_count) {
            RecipeModel::Lit { metric, start, end, segments } => render_segments(
                segments,
                readings.spec_metric(metric)@,
                start,
                end,
            ),
            RecipeModel::Excluded => Seq::empty(),
            RecipeModel::Unknown => Seq::empty(),
        }
    }
}

/// A device that the table does not hold gets no colours and a warning.
pub proof fn lemma_unknown_device_is_skipped(name: Seq<char>, led_count: usize, readings: Readings)
    requires
        !is_listed(name),
    ensures
        device_colors(name, led_count, readings) == Seq::<Color>::empty(),
        device_warning(name, led_count) is Some,
        led_count > 0 ==> device_warning(name, led_count) == Some(PolicyWarning::UnknownDevice),
{
}

/// A device without LEDs gets no colours and a warning, whatever its name.
pub proof fn lemma_device_without_leds_is_skipped(name: Seq<char>, readings: Readings)
    ensures
        device_colors(name, 0, readings) == Seq::<Color>::empty(),
        device_warning(name, 0) == Some(PolicyWarning::NoLeds),
{
}

/// The number of colours for a device: one for each of its LEDs where its
/// recipe covers them all, the fixed number of ring and fans for the cooler
/// and fan hub, and none for a device that is passed over.
pub open spec fn device_colors_len(name: Seq<char>, led_count: usize) -> nat {
    if led_count == 0 {
        0
    } else if name == DOMINATOR_PLATINUM@ || name == G502_HERO@ {
        led_count as nat
    } else if name == COMMANDER_CORE@ {
        (RING_LEDS + FAN_COUNT * FAN_LEDS) as nat
    } else {
        0
    }
}

/// A device gets as many colours as `device_colors_len` says: none, or one
/// for each of its LEDs, but for the cooler and fan hub, whose number is
/// fixed.
pub proof fn lemma_device_colors_len(name: Seq<char>, led_count: usize, readings: Readings)
    ensures
        device_colors(name, led_count, readings).len() == device_colors_len(name, led_count),
        name != COMMANDER_CORE@ ==> device_colors_len(name, led_count) == 0 || device_colors_len(
            name,
            led_count,
        ) == led_count,
{
    lemma_names_differ();
    if led_count > 0 {
        match recipe_model(name, led_count) {
            RecipeModel::Lit { metric, start, end, segments } => {
                lemma_render_len(segments, readings.spec_metric(metric)@, start, end);
                lemma_commander_core_len();
                if segments.len() == 1 {
                    assert(total_len(segments.drop_last()) == 0);
                }
            },
            _ => {},
        }
    }
}

impl DeviceUpdate {
    /// Whether the colours are to be sent: only a list that holds a colour
    /// is, so a device that is passed over is not touched.
    pub fn should_send(&self) -> (send: bool)
        ensures
            send == (self.colors@.len() > 0),
    {
        self.colors.len() > 0
    }
}

/// Decides what is done with the device called `name` that reports
/// `led_count` LEDs, given the readings of this tick.
pub fn colors_for_device(name: &str, led_count: usize, readings: &Readings) -> (update:
    DeviceUpdate)
    ensures
        update.colors@ == device_colors(name@, led_count, *readings),
        update.colors@.len() == device_colors_len(name@, led_count),
        update.warning == device_warning(name@, led_count),
        led_count == 0 || !is_listed(name@) ==> update.colors@.len() == 0 && update.warning
            is Some,
{
    proof {
        lemma_device_colors_len(name@, led_count, *readings);
    }
    if led_count == 0 {
        return DeviceUpdate { colors: Vec::new(), warning: Some(PolicyWarning::NoLeds) };
    }
    match recipe_for(name, led_count) {
        DeviceRecipe::Lit { metric, start, end, segments } => {
            let value = readings.metric(metric);
            DeviceUpdate { colors: render(&segments, value, &start, &end), warning: None }
        },
        DeviceRecipe::Excluded => DeviceUpdate { colors: Vec::new(), warning: None },
        DeviceRecipe::Unknown => DeviceUpdate {
            colors: Vec::new(),
            warning: Some(PolicyWarning::UnknownDevice),
        },
    }
}

} // verus!
