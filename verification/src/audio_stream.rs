use vstd::prelude::*;

verus! {

/// Number of interleaved audio channels in a stream.
#[derive(Debug, Clone, Copy, PartialEq, Eq, Structural)]
pub enum ChannelCount {
    Mono,
    Stereo,
}

impl ChannelCount {
    /// The number of channels as an integer.
    pub open spec fn spec_count(self) -> u16 {
        match self {
            ChannelCount::Mono => 1,
            ChannelCount::Stereo => 2,
        }
    }

    /// Returns the number of channels (1 for mono, 2 for stereo).
    pub fn count(&self) -> (r: u16)
        ensures
            r == self.spec_count(),
    {
        match self {
            ChannelCount::Mono => 1,
            ChannelCount::Stereo => 2,
        }
    }

    /// The channel layout with the given number of channels, if it is supported.
    pub open spec fn spec_from_count(count: u16) -> Option<ChannelCount> {
        if count == 1 {
            Some(ChannelCount::Mono)
        } else if count == 2 {
            Some(ChannelCount::Stereo)
        } else {
            None
        }
    }

    /// Returns the channel layout for `count` channels; only mono (1) and
    /// stereo (2) are supported.
    pub fn from_count(count: u16) -> (r: Option<ChannelCount>)
        ensures
            r == Self::spec_from_count(count),
    {
        match count {
            1 => Some(ChannelCount::Mono),
            2 => Some(ChannelCount::Stereo),
            _ => None,
        }
    }
}

/// Parameters of an audio stream: its sample rate and channel layout.
#[derive(Debug, Clone, Copy, PartialEq, Eq, Structural)]
pub struct AudioStreamParams {
    pub sample_rate: u32,
    pub channels: ChannelCount,
}

impl AudioStreamParams {
    /// Creates stream parameters from a sample rate and a channel layout.
    pub fn new(sample_rate: u32, channels: ChannelCount) -> (r: Self)
        ensures
            r.sample_rate == sample_rate,
            r.channels == channels,
    {
        Self { sample_rate, channels }
    }
}

/// Counting the channels of a layout and reading the layout back from that
/// count gives the same layout.
pub proof fn lemma_count_roundtrip(c: ChannelCount)
    ensures
        ChannelCount::spec_from_count(c.spec_count()) == Some(c),
{
}

/// A count that is accepted maps back to itself.
pub proof fn lemma_from_count_roundtrip(n: u16)
    ensures
        ChannelCount::spec_from_count(n) matches Some(c) ==> c.spec_count() == n,
        ChannelCount::spec_from_count(n) is Some <==> (n == 1 || n == 2),
{
}

} // verus!
