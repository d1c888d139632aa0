#![allow(non_camel_case_types)]
#![allow(non_snake_case)]

use vstd::prelude::*;

use crate::audio_stream::{AudioStreamParams, ChannelCount};
use crate::config::{
    ChannelGroupConfig, ChannelInitOptions, EnvelopeCurveType, EnvelopeOptions, Interpolator, ParallelismOptions,
    SoundfontInitOptions, SynthFormat, ThreadCount,
};
use crate::events::{ChannelAudioEvent, ChannelConfigEvent, ChannelEvent, ControlEvent};

verus! {

/// Mono audio (one channel).
pub const XSYNTH_AUDIO_CHANNELS_MONO: u16 = 1;
/// Stereo audio (two channels).
pub const XSYNTH_AUDIO_CHANNELS_STEREO: u16 = 2;
/// Nearest-neighbour sample interpolation.
pub const XSYNTH_INTERPOLATION_NEAREST: u16 = 0;
/// Linear sample interpolation.
pub const XSYNTH_INTERPOLATION_LINEAR: u16 = 1;
/// A linear envelope curve.
pub const XSYNTH_ENVELOPE_CURVE_LINEAR: u8 = 0;
/// An exponential envelope curve.
pub const XSYNTH_ENVELOPE_CURVE_EXPONENTIAL: u8 = 1;
/// Note on; parameter: key in the low byte, velocity in the high byte.
pub const XSYNTH_AUDIO_EVENT_NOTEON: u16 = 0;
/// Note off; parameter: key in the low byte.
pub const XSYNTH_AUDIO_EVENT_NOTEOFF: u16 = 1;
/// All notes off.
pub const XSYNTH_AUDIO_EVENT_ALLNOTESOFF: u16 = 2;
/// All notes killed.
pub const XSYNTH_AUDIO_EVENT_ALLNOTESKILLED: u16 = 3;
/// Reset all controllers.
pub const XSYNTH_AUDIO_EVENT_RESETCONTROL: u16 = 4;
/// Control change; parameter: controller in the low byte, value in the high byte.
pub const XSYNTH_AUDIO_EVENT_CONTROL: u16 = 5;
/// Program change; parameter: preset in the low byte.
pub const XSYNTH_AUDIO_EVENT_PROGRAMCHANGE: u16 = 6;
/// Pitch bend; parameter: 0 to 16384, 8192 is the center.
pub const XSYNTH_AUDIO_EVENT_PITCH: u16 = 7;
/// Fine tune; parameter: 0 to 8192, 4096 is no tuning.
pub const XSYNTH_AUDIO_EVENT_FINETUNE: u16 = 8;
/// Coarse tune; parameter: 0 to 128, 64 is no tuning.
pub const XSYNTH_AUDIO_EVENT_COARSETUNE: u16 = 9;
/// System reset.
pub const XSYNTH_AUDIO_EVENT_SYSTEMRESET: u16 = 10;
/// Set the layer count; parameter: the count, 0 for no limit.
pub const XSYNTH_CONFIG_SETLAYERS: u16 = 0;
/// Set percussion mode; parameter: 1 for on.
pub const XSYNTH_CONFIG_SETPERCUSSIONMODE: u16 = 1;

/// Audio stream parameters as the C interface passes them.
#[derive(Debug, Clone, Copy, PartialEq, Eq, Structural)]
pub struct XSynth_StreamParams {
    pub sample_rate: u32,
    pub audio_channels: u16,
}

/// Parallelism options as the C interface passes them: a negative count
/// for no multithreading, 0 for an automatic thread count.
#[derive(Debug, Clone, Copy, PartialEq, Eq, Structural)]
pub struct XSynth_ParallelismOptions {
    pub channel: i32,
    pub key: i32,
}

/// Channel group options as the C interface passes them.
#[derive(Debug, Clone, Copy, PartialEq, Eq, Structural)]
pub struct XSynth_GroupOptions {
    pub stream_params: XSynth_StreamParams,
    pub channels: u32,
    pub fade_out_killing: bool,
    pub parallelism: XSynth_ParallelismOptions,
}

/// Envelope curve options as the C interface passes them.
#[derive(Debug, Clone, Copy, PartialEq, Eq, Structural)]
pub struct XSynth_EnvelopeOptions {
    pub attack_curve: u8,
    pub decay_curve: u8,
    pub release_curve: u8,
}

/// Soundfont options as the C interface passes them: a negative bank or
/// preset for all of them.
#[derive(Debug, Clone, Copy, PartialEq, Eq, Structural)]
pub struct XSynth_SoundfontOptions {
    pub stream_params: XSynth_StreamParams,
    pub bank: i16,
    pub preset: i16,
    pub vol_envelope_options: XSynth_EnvelopeOptions,
    pub use_effects: bool,
    pub interpolator: u16,
}

/// A range of bytes, `start..=end`.
#[derive(Debug, Clone, Copy, PartialEq, Eq, Structural)]
pub struct XSynth_ByteRange {
    pub start: u8,
    pub end: u8,
}

/// Default stream parameters: 44100 Hz stereo.
pub fn XSynth_GenDefault_StreamParams() -> (r: XSynth_StreamParams)
    ensures
        r == (XSynth_StreamParams { sample_rate: 44100, audio_channels: XSYNTH_AUDIO_CHANNELS_STEREO }),
{
    XSynth_StreamParams { sample_rate: 44100, audio_channels: XSYNTH_AUDIO_CHANNELS_STEREO }
}

/// Default parallelism: automatic thread counts for channels and keys.
pub fn XSynth_GenDefault_ParallelismOptions() -> (r: XSynth_ParallelismOptions)
    ensures
        r == (XSynth_ParallelismOptions { channel: 0, key: 0 }),
{
    XSynth_ParallelismOptions { channel: 0, key: 0 }
}

/// Default group options: default stream, 16 channels, fade-out killing,
/// default parallelism.
pub fn XSynth_GenDefault_GroupOptions() -> (r: XSynth_GroupOptions)
    ensures
        r == (XSynth_GroupOptions {
            stream_params: XSynth_StreamParams { sample_rate: 44100, audio_channels: XSYNTH_AUDIO_CHANNELS_STEREO },
            channels: 16,
            fade_out_killing: true,
            parallelism: XSynth_ParallelismOptions { channel: 0, key: 0 },
        }),
{
    XSynth_GroupOptions {
        stream_params: XSynth_GenDefault_StreamParams(),
        channels: 16,
        fade_out_killing: true,
        parallelism: XSynth_GenDefault_ParallelismOptions(),
    }
}

/// Default envelope curves: exponential attack, linear decay and release.
pub fn XSynth_GenDefault_EnvelopeOptions() -> (r: XSynth_EnvelopeOptions)
    ensures
        r == (XSynth_EnvelopeOptions {
            attack_curve: XSYNTH_ENVELOPE_CURVE_EXPONENTIAL,
            decay_curve: XSYNTH_ENVELOPE_CURVE_LINEAR,
            release_curve: XSYNTH_ENVELOPE_CURVE_LINEAR,
        }),
{
    XSynth_EnvelopeOptions {
        attack_curve: XSYNTH_ENVELOPE_CURVE_EXPONENTIAL,
        decay_curve: XSYNTH_ENVELOPE_CURVE_LINEAR,
        release_curve: XSYNTH_ENVELOPE_CURVE_LINEAR,
    }
}

/// Default soundfont options: default stream, all banks and presets,
/// default envelopes, effects on, nearest interpolation.
pub fn XSynth_GenDefault_SoundfontOptions() -> (r: XSynth_SoundfontOptions)
    ensures
        r == (XSynth_SoundfontOptions {
            stream_params: XSynth_StreamParams { sample_rate: 44100, audio_channels: XSYNTH_AUDIO_CHANNELS_STEREO },
            bank: -1i16,
            preset: -1i16,
            vol_envelope_options: XSynth_EnvelopeOptions {
                attack_curve: XSYNTH_ENVELOPE_CURVE_EXPONENTIAL,
                decay_curve: XSYNTH_ENVELOPE_CURVE_LINEAR,
                release_curve: XSYNTH_ENVELOPE_CURVE_LINEAR,
            },
            use_effects: true,
            interpolator: XSYNTH_INTERPOLATION_NEAREST,
        }),
{
    XSynth_SoundfontOptions {
        stream_params: XSynth_GenDefault_StreamParams(),
        bank: -1,
        preset: -1,
        vol_envelope_options: XSynth_GenDefault_EnvelopeOptions(),
        use_effects: true,
        interpolator: XSYNTH_INTERPOLATION_NEAREST,
    }
}

/// The envelope curve for a C curve constant, if it is one.
pub open spec fn spec_envelope_curve(value: u8) -> Option<EnvelopeCurveType> {
    if value == XSYNTH_ENVELOPE_CURVE_LINEAR {
        Some(EnvelopeCurveType::Linear)
    } else if value == XSYNTH_ENVELOPE_CURVE_EXPONENTIAL {
        Some(EnvelopeCurveType::Exponential)
    } else {
        None
    }
}

/// The envelope curve for a C curve constant; an unknown constant is an error.
pub fn convert_envelope_curve(value: u8) -> (r: Result<EnvelopeCurveType, ()>)
    ensures
        match spec_envelope_curve(value) {
            Some(c) => r == Ok::<EnvelopeCurveType, ()>(c),
            None => r is Err,
        },
{
    if value == XSYNTH_ENVELOPE_CURVE_LINEAR {
        Ok(EnvelopeCurveType::Linear)
    } else if value == XSYNTH_ENVELOPE_CURVE_EXPONENTIAL {
        Ok(EnvelopeCurveType::Exponential)
    } else {
        Err(())
    }
}

/// The stream parameters of C stream parameters (1 channel is mono, 2 stereo).
pub open spec fn spec_streamparams_from_c(params: XSynth_StreamParams) -> AudioStreamParams {
    AudioStreamParams {
        sample_rate: params.sample_rate,
        channels: if params.audio_channels == 1 {
            ChannelCount::Mono
        } else {
            ChannelCount::Stereo
        },
    }
}

/// The C stream parameters of stream parameters.
pub open spec fn spec_streamparams_to_c(params: AudioStreamParams) -> XSynth_StreamParams {
    XSynth_StreamParams { sample_rate: params.sample_rate, audio_channels: params.channels.spec_count() }
}

/// The stream parameters of C stream parameters with 1 or 2 channels.
pub fn convert_streamparams_to_rust(params: XSynth_StreamParams) -> (r: AudioStreamParams)
    requires
        params.audio_channels == 1 || params.audio_channels == 2,
    ensures
        r == spec_streamparams_from_c(params),
        r.channels.spec_count() == params.audio_channels,
{
    let channels = if params.audio_channels == 1 {
        ChannelCount::Mono
    } else {
        ChannelCount::Stereo
    };
    AudioStreamParams::new(params.sample_rate, channels)
}

/// The thread count for a C thread count: negative for none, 0 for
/// automatic, otherwise that many threads.
pub open spec fn spec_threadcount(value: i32) -> ThreadCount {
    if value <= -1 {
        ThreadCount::Single
    } else if value == 0 {
        ThreadCount::Auto
    } else {
        ThreadCount::Manual(value as usize)
    }
}

/// The thread count for a C thread count.
pub fn convert_threadcount(value: i32) -> (r: ThreadCount)
    ensures
        r == spec_threadcount(value),
{
    if value <= -1 {
        ThreadCount::Single
    } else if value == 0 {
        ThreadCount::Auto
    } else {
        ThreadCount::Manual(value as usize)
    }
}

/// The parallelism options for C parallelism options.
pub fn convert_parallelism_to_rust(options: XSynth_ParallelismOptions) -> (r: ParallelismOptions)
    ensures
        r.channel == spec_threadcount(options.channel),
        r.key == spec_threadcount(options.key),
{
    ParallelismOptions { channel: convert_threadcount(options.channel), key: convert_threadcount(options.key) }
}

/// The envelope options for C envelope options; an unknown curve is an error.
pub fn convert_envelope_to_rust(options: XSynth_EnvelopeOptions) -> (r: Result<EnvelopeOptions, ()>)
    ensures
        match (
            spec_envelope_curve(options.attack_curve),
            spec_envelope_curve(options.decay_curve),
            spec_envelope_curve(options.release_curve),
        ) {
            (Some(a), Some(d), Some(rel)) => r == Ok::<EnvelopeOptions, ()>(
                EnvelopeOptions { attack_curve: a, decay_curve: d, release_curve: rel },
            ),
            _ => r is Err,
        },
{
    let attack_curve = convert_envelope_curve(options.attack_curve)?;
    let decay_curve = convert_envelope_curve(options.decay_curve)?;
    let release_curve = convert_envelope_curve(options.release_curve)?;
    Ok(EnvelopeOptions { attack_curve, decay_curve, release_curve })
}

/// The C stream parameters of stream parameters.
pub fn convert_streamparams_to_c(params: &AudioStreamParams) -> (r: XSynth_StreamParams)
    ensures
        r == spec_streamparams_to_c(*params),
{
    XSynth_StreamParams { sample_rate: params.sample_rate, audio_channels: params.channels.count() }
}

/// An audio event of the C interface, decoded. The events whose value is
/// a floating-point number carry the clamped integer parameter it is
/// computed from: pitch bend `(p - 8192) / 8192` (p in 0..=16384), fine
/// tune `(p - 4096) / 4096 * 100` cents (p in 0..=8192), coarse tune
/// `p - 64` semitones (p in 0..=128).
#[derive(Debug, Clone, Copy, PartialEq, Eq, Structural)]
pub enum DecodedAudioEvent {
    /// An audio event of the channel.
    Audio(ChannelAudioEvent),
    /// A pitch bend value from the parameter.
    PitchBendValue(u16),
    /// A fine tuning from the parameter.
    FineTune(u16),
    /// A coarse tuning from the parameter.
    CoarseTune(u16),
}

/// `value` limited to `lo..=hi`.
pub open spec fn clamp_u16(value: u16, lo: u16, hi: u16) -> u16 {
    if value < lo {
        lo
    } else if value > hi {
        hi
    } else {
        value
    }
}

/// `value` limited to `0..=127`.
pub open spec fn clamp_midi(value: u8) -> u8 {
    if value > 127 {
        127
    } else {
        value
    }
}

/// The decoding of an audio event of the C interface: event code and
/// 16-bit parameter.
pub open spec fn spec_audio_event(event: u16, params: u16) -> Option<DecodedAudioEvent> {
    let lo = (params % 256) as u8;
    let hi = (params / 256) as u8;
    if event == XSYNTH_AUDIO_EVENT_NOTEON {
        Some(DecodedAudioEvent::Audio(ChannelAudioEvent::NoteOn { key: lo, vel: hi }))
    } else if event == XSYNTH_AUDIO_EVENT_NOTEOFF {
        Some(DecodedAudioEvent::Audio(ChannelAudioEvent::NoteOff { key: lo }))
    } else if event == XSYNTH_AUDIO_EVENT_ALLNOTESKILLED {
        Some(DecodedAudioEvent::Audio(ChannelAudioEvent::AllNotesKilled))
    } else if event == XSYNTH_AUDIO_EVENT_ALLNOTESOFF {
        Some(DecodedAudioEvent::Audio(ChannelAudioEvent::AllNotesOff))
    } else if event == XSYNTH_AUDIO_EVENT_RESETCONTROL {
        Some(DecodedAudioEvent::Audio(ChannelAudioEvent::ResetControl))
    } else if event == XSYNTH_AUDIO_EVENT_PROGRAMCHANGE {
        Some(DecodedAudioEvent::Audio(ChannelAudioEvent::ProgramChange(clamp_midi(lo))))
    } else if event == XSYNTH_AUDIO_EVENT_CONTROL {
        Some(DecodedAudioEvent::Audio(ChannelAudioEvent::Control(ControlEvent::Raw(clamp_midi(lo), clamp_midi(hi)))))
    } else if event == XSYNTH_AUDIO_EVENT_PITCH {
        Some(DecodedAudioEvent::PitchBendValue(clamp_u16(params, 0, 16384)))
    } else if event == XSYNTH_AUDIO_EVENT_FINETUNE {
        Some(DecodedAudioEvent::FineTune(clamp_u16(params, 0, 8192)))
    } else if event == XSYNTH_AUDIO_EVENT_COARSETUNE {
        Some(DecodedAudioEvent::CoarseTune(clamp_u16(params, 0, 128)))
    } else if event == XSYNTH_AUDIO_EVENT_SYSTEMRESET {
        Some(DecodedAudioEvent::Audio(ChannelAudioEvent::SystemReset))
    } else {
        None
    }
}

fn clamp_midi_byte(value: u8) -> (r: u8)
    ensures
        r == clamp_midi(value),
{
    if value > 127 {
        127
    } else {
        value
    }
}

fn clamp_param(value: u16, hi: u16) -> (r: u16)
    ensures
        r == clamp_u16(value, 0, hi),
{
    if value > hi {
        hi
    } else {
        value
    }
}

/// Decodes an audio event of the C interface; an unknown event code is an
/// error.
pub fn convert_audio_event(event: u16, params: u16) -> (r: Result<DecodedAudioEvent, ()>)
    ensures
        match spec_audio_event(event, params) {
            Some(e) => r == Ok::<DecodedAudioEvent, ()>(e),
            None => r is Err,
        },
        event == XSYNTH_AUDIO_EVENT_PITCH ==> (r matches Ok(DecodedAudioEvent::PitchBendValue(v)) && v as int == if params
            <= 16384 {
            params as int
        } else {
            16384
        }),
        event == XSYNTH_AUDIO_EVENT_FINETUNE ==> (r matches Ok(DecodedAudioEvent::FineTune(v)) && v as int == if params
            <= 8192 {
            params as int
        } else {
            8192
        }),
        event == XSYNTH_AUDIO_EVENT_COARSETUNE ==> (r matches Ok(DecodedAudioEvent::CoarseTune(v)) && v as int == if params
            <= 128 {
            params as int
        } else {
            128
        }),
{
    let lo = (params % 256) as u8;
    let hi = (params / 256) as u8;
    if event == XSYNTH_AUDIO_EVENT_NOTEON {
        Ok(DecodedAudioEvent::Audio(ChannelAudioEvent::NoteOn { key: lo, vel: hi }))
    } else if event == XSYNTH_AUDIO_EVENT_NOTEOFF {
        Ok(DecodedAudioEvent::Audio(ChannelAudioEvent::NoteOff { key: lo }))
    } else if event == XSYNTH_AUDIO_EVENT_ALLNOTESKILLED {
        Ok(DecodedAudioEvent::Audio(ChannelAudioEvent::AllNotesKilled))
    } else if event == XSYNTH_AUDIO_EVENT_ALLNOTESOFF {
        Ok(DecodedAudioEvent::Audio(ChannelAudioEvent::AllNotesOff))
    } else if event == XSYNTH_AUDIO_EVENT_RESETCONTROL {
        Ok(DecodedAudioEvent::Audio(ChannelAudioEvent::ResetControl))
    } else if event == XSYNTH_AUDIO_EVENT_PROGRAMCHANGE {
        Ok(DecodedAudioEvent::Audio(ChannelAudioEvent::ProgramChange(clamp_midi_byte(lo))))
    } else if event == XSYNTH_AUDIO_EVENT_CONTROL {
        Ok(
            DecodedAudioEvent::Audio(
                ChannelAudioEvent::Control(ControlEvent::Raw(clamp_midi_byte(lo), clamp_midi_byte(hi))),
            ),
        )
    } else if event == XSYNTH_AUDIO_EVENT_PITCH {
        Ok(DecodedAudioEvent::PitchBendValue(clamp_param(params, 16384)))
    } else if event == XSYNTH_AUDIO_EVENT_FINETUNE {
        Ok(DecodedAudioEvent::FineTune(clamp_param(params, 8192)))
    } else if event == XSYNTH_AUDIO_EVENT_COARSETUNE {
        Ok(DecodedAudioEvent::CoarseTune(clamp_param(params, 128)))
    } else if event == XSYNTH_AUDIO_EVENT_SYSTEMRESET {
        Ok(DecodedAudioEvent::Audio(ChannelAudioEvent::SystemReset))
    } else {
        Err(())
    }
}

/// The layer count for a C layer count: 0 for no limit.
pub fn convert_layers(layers: u32) -> (r: Option<usize>)
    ensures
        r == (if layers == 0 {
            None::<usize>
        } else {
            Some(layers as usize)
        }),
{
    if layers == 0 {
        None
    } else {
        Some(layers as usize)
    }
}

/// Decodes a configuration event of the C interface; an unknown event code
/// is an error.
pub fn convert_config_event<SF>(event: u16, params: u32) -> (r: Result<ChannelEvent<SF>, ()>)
    ensures
        event == XSYNTH_CONFIG_SETLAYERS ==> (r matches Ok(ChannelEvent::Config(ChannelConfigEvent::SetLayerCount(l)))
            && l == (if params == 0 {
            None::<usize>
        } else {
            Some(params as usize)
        })),
        event == XSYNTH_CONFIG_SETPERCUSSIONMODE ==> (r matches Ok(
            ChannelEvent::Config(ChannelConfigEvent::SetPercussionMode(b)),
        ) && b == (params == 1)),
        event != XSYNTH_CONFIG_SETLAYERS && event != XSYNTH_CONFIG_SETPERCUSSIONMODE ==> r is Err,
{
    if event == XSYNTH_CONFIG_SETLAYERS {
        Ok(ChannelEvent::Config(ChannelConfigEvent::SetLayerCount(convert_layers(params))))
    } else if event == XSYNTH_CONFIG_SETPERCUSSIONMODE {
        Ok(ChannelEvent::Config(ChannelConfigEvent::SetPercussionMode(params == 1)))
    } else {
        Err(())
    }
}

/// The synthesizer format for a C channel count: 16 is standard MIDI.
pub fn convert_synth_format(channels: u32) -> (r: SynthFormat)
    ensures
        r == (if channels == 16 {
            SynthFormat::MidiSingle
        } else {
            SynthFormat::Custom { channels }
        }),
{
    if channels == 16 {
        SynthFormat::MidiSingle
    } else {
        SynthFormat::Custom { channels }
    }
}

/// The bank or preset for a C value: negative for all of them, otherwise
/// its low byte.
pub fn convert_program_value(val: i16) -> (r: Option<u8>)
    ensures
        r == (if val < 0 {
            None::<u8>
        } else {
            Some(val as u8)
        }),
{
    if val < 0 {
        None
    } else {
        Some(val as u8)
    }
}

fn clamp_i16(value: i16, lo: i16, hi: i16) -> (r: i16)
    requires
        lo <= hi,
    ensures
        r == (if value < lo {
            lo
        } else if value > hi {
            hi
        } else {
            value
        }),
{
    if value < lo {
        lo
    } else if value > hi {
        hi
    } else {
        value
    }
}

/// The soundfont options for C soundfont options whose envelope curves
/// are known: the bank limited to -1..=128 and the preset to -1..=127
/// (negative for all), linear interpolation for the linear constant and
/// nearest for any other.
pub fn convert_soundfont_options(options: &XSynth_SoundfontOptions) -> (r: SoundfontInitOptions)
    requires
        spec_envelope_curve(options.vol_envelope_options.attack_curve) is Some,
        spec_envelope_curve(options.vol_envelope_options.decay_curve) is Some,
        spec_envelope_curve(options.vol_envelope_options.release_curve) is Some,
    ensures
        r.bank == (if options.bank < 0 {
            None::<u8>
        } else if options.bank > 128 {
            Some(128u8)
        } else {
            Some(options.bank as u8)
        }),
        r.preset == (if options.preset < 0 {
            None::<u8>
        } else if options.preset > 127 {
            Some(127u8)
        } else {
            Some(options.preset as u8)
        }),
        r.vol_envelope_options.attack_curve == spec_envelope_curve(options.vol_envelope_options.attack_curve).unwrap(),
        r.vol_envelope_options.decay_curve == spec_envelope_curve(options.vol_envelope_options.decay_curve).unwrap(),
        r.vol_envelope_options.release_curve == spec_envelope_curve(options.vol_envelope_options.release_curve).unwrap(),
        r.use_effects == options.use_effects,
        r.interpolator == (if options.interpolator == XSYNTH_INTERPOLATION_LINEAR {
            Interpolator::Linear
        } else {
            Interpolator::Nearest
        }),
{
    let envelope = match convert_envelope_to_rust(options.vol_envelope_options) {
        Ok(e) => e,
        Err(_) => EnvelopeOptions::default(),
    };
    SoundfontInitOptions {
        bank: convert_program_value(clamp_i16(options.bank, -1, 128)),
        preset: convert_program_value(clamp_i16(options.preset, -1, 127)),
        vol_envelope_options: envelope,
        use_effects: options.use_effects,
        interpolator: if options.interpolator == XSYNTH_INTERPOLATION_LINEAR {
            Interpolator::Linear
        } else {
            Interpolator::Nearest
        },
    }
}

/// The channel group configuration for C group options with 1 or 2 audio
/// channels.
pub fn convert_group_options(options: &XSynth_GroupOptions) -> (r: ChannelGroupConfig)
    requires
        options.stream_params.audio_channels == 1 || options.stream_params.audio_channels == 2,
    ensures
        r.channel_init_options == (ChannelInitOptions { fade_out_killing: options.fade_out_killing }),
        r.format == (if options.channels == 16 {
            SynthFormat::MidiSingle
        } else {
            SynthFormat::Custom { channels: options.channels }
        }),
        r.audio_params.sample_rate == options.stream_params.sample_rate,
        r.audio_params.channels.spec_count() == options.stream_params.audio_channels,
        r.parallelism.channel == spec_threadcount(options.parallelism.channel),
        r.parallelism.key == spec_threadcount(options.parallelism.key),
{
    ChannelGroupConfig {
        channel_init_options: ChannelInitOptions { fade_out_killing: options.fade_out_killing },
        format: convert_synth_format(options.channels),
        audio_params: convert_streamparams_to_rust(options.stream_params),
        parallelism: convert_parallelism_to_rust(options.parallelism),
    }
}

/// Stream parameters passed through the C interface come back unchanged,
/// both ways.
pub proof fn lemma_streamparams_roundtrip(c: XSynth_StreamParams, a: AudioStreamParams)
    ensures
        (c.audio_channels == 1 || c.audio_channels == 2) ==> spec_streamparams_to_c(spec_streamparams_from_c(c)) == c,
        spec_streamparams_from_c(spec_streamparams_to_c(a)) == a,
{
}

/// A note on sent through the C interface as `key | vel << 8` decodes to
/// that note on, and a control change to values within 0..=127.
pub proof fn lemma_audio_event_decoding(key: u8, vel: u8, params: u16)
    ensures
        spec_audio_event(XSYNTH_AUDIO_EVENT_NOTEON, (key + vel * 256) as u16) == Some(
            DecodedAudioEvent::Audio(ChannelAudioEvent::NoteOn { key, vel }),
        ),
        spec_audio_event(XSYNTH_AUDIO_EVENT_NOTEOFF, key as u16) == Some(
            DecodedAudioEvent::Audio(ChannelAudioEvent::NoteOff { key }),
        ),
        spec_audio_event(XSYNTH_AUDIO_EVENT_CONTROL, params) matches Some(
            DecodedAudioEvent::Audio(ChannelAudioEvent::Control(ControlEvent::Raw(c, v))),
        ) && c <= 127 && v <= 127,
{
    let p: int = key + vel * 256;
    assert(p % 256 == key && p / 256 == vel) by (nonlinear_arith)
        requires
            p == key + vel * 256,
            0 <= key < 256,
            0 <= vel < 256,
    ;
}


/// The pitch wheel, fine and coarse tuning of the C interface pass their
/// parameter through unchanged within their ranges (0..=16384 for the
/// pitch wheel, 8192 its centre; 0..=8192 and 0..=128 for the tunings) and
/// are limited to the top of the range above it; so a parameter below the
/// centre decodes below the centre (a downward bend or tuning), and a
/// larger parameter never decodes to a smaller value.
pub proof fn lemma_bend_and_tuning_decoding(params: u16, other: u16)
    ensures
        params <= 16384 ==> spec_audio_event(XSYNTH_AUDIO_EVENT_PITCH, params) == Some(
            DecodedAudioEvent::PitchBendValue(params),
        ),
        params > 16384 ==> spec_audio_event(XSYNTH_AUDIO_EVENT_PITCH, params) == Some(
            DecodedAudioEvent::PitchBendValue(16384),
        ),
        params <= 8192 ==> spec_audio_event(XSYNTH_AUDIO_EVENT_FINETUNE, params) == Some(
            DecodedAudioEvent::FineTune(params),
        ),
        params > 8192 ==> spec_audio_event(XSYNTH_AUDIO_EVENT_FINETUNE, params) == Some(
            DecodedAudioEvent::FineTune(8192),
        ),
        params <= 128 ==> spec_audio_event(XSYNTH_AUDIO_EVENT_COARSETUNE, params) == Some(
            DecodedAudioEvent::CoarseTune(params),
        ),
        params > 128 ==> spec_audio_event(XSYNTH_AUDIO_EVENT_COARSETUNE, params) == Some(
            DecodedAudioEvent::CoarseTune(128),
        ),
        params <= other ==> ({
            let a = spec_audio_event(XSYNTH_AUDIO_EVENT_PITCH, params);
            let b = spec_audio_event(XSYNTH_AUDIO_EVENT_PITCH, other);
            a matches Some(DecodedAudioEvent::PitchBendValue(x)) && b matches Some(
                DecodedAudioEvent::PitchBendValue(y),
            ) && x <= y
        }),
{
}

/// A program change through the C interface selects the preset in the low
/// byte of the parameter, limited to 127, whatever the high byte holds;
/// a control change takes the controller from the low byte and the value
/// from the high byte, each limited to 127.
pub proof fn lemma_program_and_control_decoding(lo: u8, hi: u8)
    ensures
        spec_audio_event(XSYNTH_AUDIO_EVENT_PROGRAMCHANGE, (lo + hi * 256) as u16) == Some(
            DecodedAudioEvent::Audio(ChannelAudioEvent::ProgramChange(if lo <= 127 { lo } else { 127u8 })),
        ),
        spec_audio_event(XSYNTH_AUDIO_EVENT_CONTROL, (lo + hi * 256) as u16) == Some(
            DecodedAudioEvent::Audio(
                ChannelAudioEvent::Control(
                    ControlEvent::Raw(if lo <= 127 { lo } else { 127u8 }, if hi <= 127 { hi } else { 127u8 }),
                ),
            ),
        ),
{
    let p: int = lo + hi * 256;
    assert(p % 256 == lo && p / 256 == hi) by (nonlinear_arith)
        requires
            p == lo + hi * 256,
            0 <= lo < 256,
            0 <= hi < 256,
    ;
}
} // verus!
