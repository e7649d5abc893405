use vstd::prelude::*;
use crate::fraction::{Fraction, Ratio};
use crate::ring::MAX_RING_CAPACITY;
use crate::window::{latest, mean_of, SlidingWindow};

verus! {

/// The span of time that the processor reading is smoothed over, in
/// milliseconds.
pub const SAMPLE_TIME: usize = 5_000;

/// The time between two samples, in milliseconds.
pub const SAMPLE_RATE: usize = 500;

/// The number of samples that span `SAMPLE_TIME`.
pub const SAMPLE_BUFFER_SIZE: usize = SAMPLE_TIME / SAMPLE_RATE;

/// Which reading feeds a device.
#[derive(Clone, Copy, Debug, PartialEq, Eq, Structural)]
pub enum Metric {
    Cpu,
    Memory,
}

/// The two readings of one tick.
#[derive(Clone, Copy, Debug)]
pub struct Readings {
    /// The share of processor time not spent idle, smoothed over the window.
    pub cpu: Fraction,
    /// The share of memory in use, as read at this tick.
    pub memory: Fraction,
}

impl Readings {
    pub open spec fn spec_metric(&self, metric: Metric) -> Fraction {
        match metric {
            Metric::Cpu => self.cpu,
            Metric::Memory => self.memory,
        }
    }

    /// The reading that `metric` names.
    pub fn metric(&self, metric: Metric) -> (value: Fraction)
        ensures
            value == self.spec_metric(metric),
    {
        match metric {
            Metric::Cpu => self.cpu,
            Metric::Memory => self.memory,
        }
    }
}

/// The share of memory in use, `used / total`, or nothing when `total` is
/// zero.
pub fn memory_usage(used: u64, total: u64) -> (usage: Option<Fraction>)
    ensures
        usage is None <==> total == 0,
        usage matches Some(f) ==> f@ == (Ratio { num: used as int, den: total as int }),
{
    Fraction::new(used as i128, total)
}

/// Turns the measurements of each tick into the readings that drive the
/// lights. It owns the window of processor samples.
pub struct Sampler {
    window: SlidingWindow,
}

impl Sampler {
    /// The processor samples held, oldest first, in millionths.
    pub closed spec fn samples(&self) -> Seq<u32> {
        self.window@
    }

    /// The number of processor samples that are smoothed over.
    pub closed spec fn horizon(&self) -> nat {
        self.window.spec_capacity()
    }

    /// A sampler that smooths over `horizon` samples, or nothing when
    /// `horizon` is zero or above `MAX_RING_CAPACITY`.
    pub fn new(horizon: usize) -> (sampler: Option<Sampler>)
        ensures
            sampler is Some <==> 0 < horizon <= MAX_RING_CAPACITY,
            sampler matches Some(s) ==> s.samples() == Seq::<u32>::empty() && s.horizon()
                == horizon,
    {
        match SlidingWindow::new(horizon) {
            Some(window) => Some(Sampler { window }),
            None => None,
        }
    }

    /// One tick. `cpu_sample` is the share of processor time not spent idle
    /// since the last tick, in millionths; `memory_used` and `memory_total`
    /// are the memory in use and in all.
    ///
    /// With no memory at all there is no reading: the tick gives nothing and
    /// the window keeps what it held. Otherwise the sample enters the window,
    /// and the readings are the mean of the window and `memory_used /
    /// memory_total`.
    pub fn tick(&mut self, cpu_sample: u32, memory_used: u64, memory_total: u64) -> (readings:
        Option<Readings>)
        ensures
            final(self).horizon() == old(self).horizon(),
            readings is None <==> memory_total == 0,
            readings is None ==> final(self).samples() == old(self).samples(),
            readings matches Some(r) ==> {
                &&& final(self).samples() == latest(
                    old(self).samples().push(cpu_sample),
                    old(self).horizon(),
                )
                &&& r.cpu@ == mean_of(final(self).samples())
                &&& r.memory@ == (Ratio { num: memory_used as int, den: memory_total as int })
            },
    {
        let memory = match memory_usage(memory_used, memory_total) {
            Some(memory) => memory,
            None => {
                return None;
            },
        };
        self.window.push(cpu_sample);
        match self.window.average() {
            Some(cpu) => Some(Readings { cpu, memory }),
            None => None,
        }
    }
}

} // verus!
