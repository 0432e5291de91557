//! Channel layout changes applied while converting audio files: duplicating a
//! mono stream into stereo, or pairing stereo samples to be mixed down.

use vstd::prelude::*;

verus! {

/// How interleaved samples are regrouped between input and output channels.
#[derive(Debug, Clone, Copy, PartialEq, Eq, Structural)]
pub enum ChannelMode {
    /// One input channel, two output channels: each sample is written twice.
    MonoToStereo,
    /// Two input channels, one output channel: each left/right pair becomes one sample.
    StereoToMono,
    /// Samples are written as they are read.
    Keep,
}

/// The regrouping for a conversion from `input_channels` to `output_channels`.
pub fn channel_mode(input_channels: u16, output_channels: u16) -> (r: ChannelMode)
    ensures
        r == (if input_channels == 1 && output_channels == 2 {
            ChannelMode::MonoToStereo
        } else if input_channels == 2 && output_channels == 1 {
            ChannelMode::StereoToMono
        } else {
            ChannelMode::Keep
        }),
{
    if input_channels == 1 && output_channels == 2 {
        ChannelMode::MonoToStereo
    } else if input_channels == 2 && output_channels == 1 {
        ChannelMode::StereoToMono
    } else {
        ChannelMode::Keep
    }
}

/// The number of output channels: the requested count, or else the input's
/// count taken modulo 256 (it passes through a byte).
pub fn output_channels(requested: Option<u8>, input_channels: u16) -> (r: u16)
    ensures
        r == match requested {
            Some(c) => c as u16,
            None => (input_channels % 256) as u16,
        },
{
    match requested {
        Some(c) => c as u16,
        None => {
            let low = (input_channels % 256) as u8;
            low as u16
        },
    }
}

/// Each sample of `samples` written twice in a row.
pub fn duplicate_samples<T: Copy>(samples: &Vec<T>) -> (r: Vec<T>)
    requires
        2 * samples@.len() <= usize::MAX,
    ensures
        r@.len() == 2 * samples@.len(),
        forall|i: int| 0 <= i < samples@.len() ==> r@[2 * i] == #[trigger] samples@[i] && r@[2 * i + 1] == samples@[i],
{
    let n = samples.len();
    let mut out: Vec<T> = Vec::with_capacity(2 * n);
    for i in 0..n
        invariant
            n == samples@.len(),
            out@.len() == 2 * i,
            forall|k: int| 0 <= k < i ==> out@[2 * k] == #[trigger] samples@[k] && out@[2 * k + 1] == samples@[k],
    {
        let ghost before = out@;
        out.push(samples[i]);
        out.push(samples[i]);
        assert(forall|k: int| 0 <= k < 2 * i ==> out@[k] == before[k]);
    }
    out
}

/// Consecutive left/right pairs of interleaved stereo samples; a trailing
/// unpaired sample is dropped.
pub fn stereo_pairs<T: Copy>(samples: &Vec<T>) -> (r: Vec<(T, T)>)
    ensures
        r@.len() == samples@.len() / 2,
        forall|i: int| 0 <= i < r@.len() ==> #[trigger] r@[i] == (samples@[2 * i], samples@[2 * i + 1]),
{
    let len = samples.len();
    let n = len / 2;
    let mut out: Vec<(T, T)> = Vec::with_capacity(n);
    for i in 0..n
        invariant
            len == samples@.len(),
            n == len / 2,
            out@.len() == i,
            forall|k: int| 0 <= k < i ==> #[trigger] out@[k] == (samples@[2 * k], samples@[2 * k + 1]),
    {
        assert(2 * i + 1 < samples@.len());
        out.push((samples[2 * i], samples[2 * i + 1]));
    }
    out
}

/// Pairing a duplicated mono stream gives every input sample as both the
/// left and the right sample of its pair.
pub proof fn law_duplicate_then_pair<T>(samples: Seq<T>, duplicated: Seq<T>, pairs: Seq<(T, T)>)
    requires
        duplicated.len() == 2 * samples.len(),
        forall|i: int| 0 <= i < samples.len() ==> duplicated[2 * i] == #[trigger] samples[i] && duplicated[2 * i + 1] == samples[i],
        pairs.len() == duplicated.len() / 2,
        forall|i: int| 0 <= i < pairs.len() ==> #[trigger] pairs[i] == (duplicated[2 * i], duplicated[2 * i + 1]),
    ensures
        pairs.len() == samples.len(),
        forall|i: int| 0 <= i < samples.len() ==> #[trigger] pairs[i] == (samples[i], samples[i]),
{
    assert forall|i: int| 0 <= i < samples.len() implies #[trigger] pairs[i] == (samples[i], samples[i]) by {
        assert(duplicated[2 * i] == samples[i]);
        assert(pairs[i] == (duplicated[2 * i], duplicated[2 * i + 1]));
    }
}

} // verus!
