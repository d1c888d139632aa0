use vstd::prelude::*;

use crate::audio_stream::AudioStreamParams;

verus! {

/// Options for initializing a new voice channel.
#[derive(Debug, Clone, Copy, PartialEq, Eq, Structural)]
pub struct ChannelInitOptions {
    /// If set to true, the voices killed due to the voice limit will fade out.
    /// If set to false, they will be killed immediately, usually causing clicking
    /// but improving performance.
    ///
    /// Default: `false`
    pub fade_out_killing: bool,
}

impl Default for ChannelInitOptions {
    fn default() -> (r: Self)
        ensures
            !r.fade_out_killing,
    {
        ChannelInitOptions { fade_out_killing: false }
    }
}

/// Type of the audio sample interpolation algorithm.
#[derive(Debug, Clone, Copy, PartialEq, Eq, Structural)]
pub enum Interpolator {
    /// Nearest neighbor interpolation
    Nearest,
    /// Linear interpolation
    Linear,
}

/// Type of curve to be used in certain envelope stages.
#[derive(Debug, Clone, Copy, PartialEq, Eq, Structural)]
pub enum EnvelopeCurveType {
    /// Apply a linear curve to the envelope stage.
    /// This option is supported by the attack, decay and release stages.
    Linear,
    /// Apply an exponential curve to the envelope stage.
    /// The decay and release stages will use a concave curve, while the
    /// attack stage will use a convex curve.
    Exponential,
}

/// Options for the curves of a specific envelope.
#[derive(Debug, Clone, Copy, PartialEq, Eq, Structural)]
pub struct EnvelopeOptions {
    /// Curve of the attack stage. Default: `Exponential`
    pub attack_curve: EnvelopeCurveType,
    /// Curve of the decay stage. Default: `Linear`
    pub decay_curve: EnvelopeCurveType,
    /// Curve of the release stage. Default: `Linear`
    pub release_curve: EnvelopeCurveType,
}

impl Default for EnvelopeOptions {
    fn default() -> (r: Self)
        ensures
            r.attack_curve == EnvelopeCurveType::Exponential,
            r.decay_curve == EnvelopeCurveType::Linear,
            r.release_curve == EnvelopeCurveType::Linear,
    {
        EnvelopeOptions {
            attack_curve: EnvelopeCurveType::Exponential,
            decay_curve: EnvelopeCurveType::Linear,
            release_curve: EnvelopeCurveType::Linear,
        }
    }
}

/// Options for initializing/loading a new sample soundfont.
#[derive(Debug, Clone, Copy, PartialEq, Eq, Structural)]
pub struct SoundfontInitOptions {
    /// The bank number (0-128) to extract and use from the soundfont.
    /// `None` means to use all available banks (bank 0 for SFZ).
    pub bank: Option<u8>,
    /// The preset number (0-127) to extract and use from the soundfont.
    /// `None` means to use all available presets (preset 0 for SFZ).
    pub preset: Option<u8>,
    /// The volume envelope curves.
    pub vol_envelope_options: EnvelopeOptions,
    /// If set to true, the voices generated using this soundfont will be able
    /// to use signal processing effects (currently the cutoff filter).
    pub use_effects: bool,
    /// The type of interpolator to use for the new soundfont.
    pub interpolator: Interpolator,
}

impl SoundfontInitOptions {
    /// The default options: all banks and presets, exponential attack and
    /// linear decay and release, effects on, nearest interpolation.
    pub open spec fn spec_default() -> SoundfontInitOptions {
        SoundfontInitOptions {
            bank: None,
            preset: None,
            vol_envelope_options: EnvelopeOptions {
                attack_curve: EnvelopeCurveType::Exponential,
                decay_curve: EnvelopeCurveType::Linear,
                release_curve: EnvelopeCurveType::Linear,
            },
            use_effects: true,
            interpolator: Interpolator::Nearest,
        }
    }
}

impl Default for SoundfontInitOptions {
    fn default() -> (r: Self)
        ensures
            r == SoundfontInitOptions::spec_default(),
    {
        SoundfontInitOptions {
            bank: None,
            preset: None,
            vol_envelope_options: EnvelopeOptions::default(),
            use_effects: true,
            interpolator: Interpolator::Nearest,
        }
    }
}

/// Controls the channel format that will be used in the synthesizer.
#[derive(Debug, Clone, Copy, PartialEq, Eq, Structural)]
pub enum SynthFormat {
    /// Standard MIDI format with 16 channels. Channel 10 will be used for percussion.
    MidiSingle,
    /// Creates a custom number of channels with the default settings.
    Custom { channels: u32 },
}

impl Default for SynthFormat {
    fn default() -> (r: Self)
        ensures
            r == SynthFormat::MidiSingle,
    {
        SynthFormat::MidiSingle
    }
}

/// Defines the multithreading options for each task that supports it.
#[derive(Debug, Clone, Copy, PartialEq, Eq, Structural)]
pub enum ThreadCount {
    /// No multithreading. Run everything on the same thread.
    Single,
    /// Run with multithreading, with an automatically determined thread count.
    Auto,
    /// Run with multithreading, with the specified thread count.
    Manual(usize),
}

/// Options regarding which parts of the channel group should be multithreaded.
#[derive(Debug, Clone, Copy, PartialEq, Eq, Structural)]
pub struct ParallelismOptions {
    /// Render the MIDI channels parallel in a threadpool with the specified
    /// thread count.
    pub channel: ThreadCount,
    /// Render the individual keys of each channel parallel in a threadpool
    /// with the specified thread count.
    pub key: ThreadCount,
}

impl ParallelismOptions {
    /// Automatic thread counts for both channels and keys.
    pub open spec fn spec_auto_per_key() -> ParallelismOptions {
        ParallelismOptions { channel: ThreadCount::Auto, key: ThreadCount::Auto }
    }

    /// Automatic thread count for channels, keys rendered on the channel's thread.
    pub open spec fn spec_auto_per_channel() -> ParallelismOptions {
        ParallelismOptions { channel: ThreadCount::Auto, key: ThreadCount::Single }
    }

    /// Automatic thread counts for both channels and keys.
    pub fn auto_per_key() -> (r: ParallelismOptions)
        ensures
            r == Self::spec_auto_per_key(),
    {
        ParallelismOptions { channel: ThreadCount::Auto, key: ThreadCount::Auto }
    }

    /// Automatic thread count for channels, keys rendered on the channel's thread.
    pub fn auto_per_channel() -> (r: ParallelismOptions)
        ensures
            r == Self::spec_auto_per_channel(),
    {
        ParallelismOptions { channel: ThreadCount::Auto, key: ThreadCount::Single }
    }
}

impl Default for ParallelismOptions {
    fn default() -> (r: Self)
        ensures
            r == ParallelismOptions::spec_auto_per_key(),
    {
        Self::auto_per_key()
    }
}

/// Options for initializing a new channel group.
#[derive(Debug, Clone, Copy, PartialEq, Eq, Structural)]
pub struct ChannelGroupConfig {
    /// Channel initialization options (same for all channels).
    pub channel_init_options: ChannelInitOptions,
    /// The format that the synthesizer will use.
    pub format: SynthFormat,
    /// Parameters of the output audio.
    pub audio_params: AudioStreamParams,
    /// Options about the group's parallelism.
    pub parallelism: ParallelismOptions,
}

} // verus!
