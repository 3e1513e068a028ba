//! Stream configurations and the choice of one for a device.
use vstd::prelude::*;

verus! {

/// How the hardware delivers samples.
#[derive(Clone, Copy, Debug, PartialEq, Eq, Structural)]
pub enum SampleEncoding {
    Int16,
    Uint16,
    Float32,
    /// Any other format; a stream cannot be opened on it.
    Other,
}

/// One concrete stream configuration.
#[derive(Clone, Copy, Debug, PartialEq, Eq, Structural)]
pub struct StreamSpec {
    pub sample_rate: u32,
    pub channels: u16,
    pub encoding: SampleEncoding,
}

/// A family of configurations a device supports: one channel count and
/// encoding over a range of sample rates.
#[derive(Clone, Copy, Debug, PartialEq, Eq, Structural)]
pub struct ConfigRange {
    pub channels: u16,
    pub min_sample_rate: u32,
    pub max_sample_rate: u32,
    pub encoding: SampleEncoding,
}

/// Preference among encodings: 16-bit integers first, then 32-bit floats.
pub open spec fn encoding_score(e: SampleEncoding) -> int {
    match e {
        SampleEncoding::Int16 => 2,
        SampleEncoding::Float32 => 1,
        _ => 0,
    }
}

/// Whether `a` ranks below `b`: by encoding score, then by maximum rate.
pub open spec fn ranks_below(a: ConfigRange, b: ConfigRange) -> bool {
    encoding_score(a.encoding) < encoding_score(b.encoding) || (encoding_score(a.encoding)
        == encoding_score(b.encoding) && a.max_sample_rate < b.max_sample_rate)
}

/// `i` is the best range of `s`: none ranks above it, and every later one
/// ranks below it (the last of equally good ranges wins).
pub open spec fn is_best_range(s: Seq<ConfigRange>, i: int) -> bool {
    &&& 0 <= i < s.len()
    &&& forall|j: int| 0 <= j < s.len() ==> !ranks_below(s[i], #[trigger] s[j])
    &&& forall|j: int| i < j < s.len() ==> ranks_below(#[trigger] s[j], s[i])
}

/// A range instantiated at its maximum rate.
pub open spec fn at_max_rate(c: ConfigRange) -> StreamSpec {
    StreamSpec { sample_rate: c.max_sample_rate, channels: c.channels, encoding: c.encoding }
}

fn score(e: SampleEncoding) -> (r: u8)
    ensures
        r == encoding_score(e),
{
    match e {
        SampleEncoding::Int16 => 2,
        SampleEncoding::Float32 => 1,
        _ => 0,
    }
}

/// Index of the best range of a non-empty list.
pub fn best_range(ranges: &Vec<ConfigRange>) -> (r: usize)
    requires
        ranges@.len() > 0,
    ensures
        is_best_range(ranges@, r as int),
{
    let mut best: usize = 0;
    let mut i: usize = 1;
    while i < ranges.len()
        invariant
            1 <= i <= ranges@.len(),
            best < i,
            forall|j: int| 0 <= j < i ==> !ranks_below(ranges@[best as int], #[trigger] ranges@[j]),
            forall|j: int| best < j < i ==> ranks_below(#[trigger] ranges@[j], ranges@[best as int]),
        decreases ranges@.len() - i,
    {
        let c = ranges[i];
        let b = ranges[best];
        let sc = score(c.encoding);
        let sb = score(b.encoding);
        if sc > sb || (sc == sb && c.max_sample_rate >= b.max_sample_rate) {
            best = i;
        }
        i += 1;
    }
    best
}

/// The configuration a device is opened with, tried in order: its default
/// capture configuration; else the best of its supported capture ranges,
/// at that range's maximum rate; else its default playback configuration,
/// for capture from what it plays. `None` when all three are missing.
pub fn resolve_input_config(
    default_input: Option<StreamSpec>,
    supported_inputs: &Vec<ConfigRange>,
    default_output: Option<StreamSpec>,
) -> (r: Option<StreamSpec>)
    ensures
        default_input.is_some() ==> r == default_input,
        default_input.is_none() && supported_inputs@.len() > 0 ==> exists|i: int|
            is_best_range(supported_inputs@, i) && r == Some(at_max_rate(supported_inputs@[i])),
        default_input.is_none() && supported_inputs@.len() == 0 ==> r == default_output,
{
    if default_input.is_some() {
        return default_input;
    }
    if supported_inputs.len() > 0 {
        let i = best_range(supported_inputs);
        let c = supported_inputs[i];
        return Some(StreamSpec { sample_rate: c.max_sample_rate, channels: c.channels, encoding: c.encoding });
    }
    default_output
}

} // verus!
