//! Choosing a capture configuration among what a device supports.
//!
//! A device offers ranges of sample rates, each with a channel count and a
//! sample format, which this module carries as an opaque tag. The first of the preferred rates that some range admits is
//! taken, from the first range that admits it; failing all of them, the first
//! range at its highest rate, capped at 48 kHz.
use vstd::prelude::*;

verus! {

/// The highest rate the fallback asks for.
pub const MAX_RATE: u32 = 48000;

/// A range of sample rates a device supports, with its channel count and a
/// tag that the caller attaches (its sample format, or where it came from).
#[derive(Clone, Copy, Debug)]
pub struct ConfigRange<F> {
    pub channels: u16,
    pub min_sample_rate: u32,
    pub max_sample_rate: u32,
    pub tag: F,
}

/// A chosen configuration, with the tag of the range it came from.
#[derive(Clone, Copy, Debug)]
pub struct SelectedConfig<F> {
    pub channels: u16,
    pub sample_rate: u32,
    pub tag: F,
}

/// Why no configuration was chosen.
#[derive(Clone, Copy, Debug, PartialEq, Eq, Structural)]
pub enum ConfigError {
    /// The device offers no range at all.
    NoConfigs,
    /// No preferred rate fits any range, and the first range lies wholly
    /// above the capped fallback rate.
    RateOutOfRange,
}

impl ConfigError {
    /// A short description of the error.
    pub fn message(&self) -> String {
        match self {
            ConfigError::NoConfigs => String::from_str("no supported input configs found"),
            ConfigError::RateOutOfRange => String::from_str("sample rate out of range"),
        }
    }
}

/// The preferred rates, most preferred first.
pub open spec fn preferred_rate(i: int) -> u32 {
    if i == 0 {
        16000
    } else if i == 1 {
        44100
    } else {
        48000
    }
}

/// Whether `r` admits `rate`.
pub open spec fn admits<F>(r: ConfigRange<F>, rate: u32) -> bool {
    r.min_sample_rate <= rate <= r.max_sample_rate
}

/// The index of the first range from `from` on that admits `rate`, or the
/// number of ranges if none does.
pub open spec fn first_admitting<F>(ranges: Seq<ConfigRange<F>>, rate: u32, from: int) -> int
    decreases ranges.len() - from,
{
    if from < 0 || from >= ranges.len() {
        ranges.len() as int
    } else if admits(ranges[from], rate) {
        from
    } else {
        first_admitting(ranges, rate, from + 1)
    }
}

/// The configuration `r` gives at `rate`.
pub open spec fn at_rate<F>(r: ConfigRange<F>, rate: u32) -> SelectedConfig<F> {
    SelectedConfig { channels: r.channels, sample_rate: rate, tag: r.tag }
}

/// The choice among `ranges` from the preferred rates at index `p` on.
pub open spec fn select_from<F>(ranges: Seq<ConfigRange<F>>, p: int) -> Result<
    SelectedConfig<F>,
    ConfigError,
>
    decreases 3 - p,
{
    if 0 <= p < 3 {
        let i = first_admitting(ranges, preferred_rate(p), 0);
        if i < ranges.len() {
            Ok(at_rate(ranges[i], preferred_rate(p)))
        } else {
            select_from(ranges, p + 1)
        }
    } else if ranges.len() == 0 {
        Err(ConfigError::NoConfigs)
    } else {
        let capped = if ranges[0].max_sample_rate < MAX_RATE {
            ranges[0].max_sample_rate
        } else {
            MAX_RATE
        };
        if admits(ranges[0], capped) {
            Ok(at_rate(ranges[0], capped))
        } else {
            Err(ConfigError::RateOutOfRange)
        }
    }
}

/// The index of the first range that admits `rate`, or the number of ranges.
fn find_admitting<F: Copy>(ranges: &Vec<ConfigRange<F>>, rate: u32) -> (r: usize)
    ensures
        r == first_admitting(ranges@, rate, 0),
{
    let mut i: usize = 0;
    while i < ranges.len()
        invariant
            i <= ranges.len(),
            first_admitting(ranges@, rate, 0) == first_admitting(ranges@, rate, i as int),
        decreases ranges.len() - i,
    {
        let r = &ranges[i];
        if r.min_sample_rate <= rate && rate <= r.max_sample_rate {
            return i;
        }
        i = i + 1;
    }
    i
}

/// Chooses the capture configuration: the first preferred rate (16, 44.1,
/// then 48 kHz) that some range admits, from the first range that admits it;
/// failing that, the first range at its highest rate capped at 48 kHz.
pub fn select_input_config<F: Copy>(ranges: &Vec<ConfigRange<F>>) -> (r: Result<
    SelectedConfig<F>,
    ConfigError,
>)
    ensures
        r == select_from(ranges@, 0),
{
    let mut p: usize = 0;
    while p < 3
        invariant
            p <= 3,
            select_from(ranges@, 0) == select_from(ranges@, p as int),
        decreases 3 - p,
    {
        let rate: u32 = if p == 0 {
            16000
        } else if p == 1 {
            44100
        } else {
            48000
        };
        let i = find_admitting(ranges, rate);
        if i < ranges.len() {
            let c = &ranges[i];
            return Ok(SelectedConfig { channels: c.channels, sample_rate: rate, tag: c.tag });
        }
        p = p + 1;
    }
    if ranges.len() == 0 {
        return Err(ConfigError::NoConfigs);
    }
    let c = &ranges[0];
    let capped = if c.max_sample_rate < MAX_RATE {
        c.max_sample_rate
    } else {
        MAX_RATE
    };
    if c.min_sample_rate <= capped {
        Ok(SelectedConfig { channels: c.channels, sample_rate: capped, tag: c.tag })
    } else {
        Err(ConfigError::RateOutOfRange)
    }
}

} // verus!
