use std::sync::Arc;
use vstd::prelude::*;

verus! {

/// MIDI events for a single key in a channel.
#[derive(Debug, Clone, Copy, PartialEq, Eq, Structural)]
pub enum KeyNoteEvent {
    /// Starts a new note voice with a velocity.
    On(u8),
    /// Signals off to a note voice.
    Off,
    /// Signals off to all note voices.
    AllOff,
    /// Kills all note voices without decay.
    AllKilled,
}

/// Events to modify parameters of a channel.
#[derive(Debug, Clone)]
pub enum ChannelConfigEvent<SF> {
    /// Sets the soundfonts for the channel.
    SetSoundfonts(Vec<Arc<SF>>),
    /// Sets the layer count (voice limit per key); `None` means no limit.
    SetLayerCount(Option<usize>),
    /// Controls whether the channel will be standard or percussion.
    /// Setting to `true` will make the channel only use percussion patches.
    SetPercussionMode(bool),
}

/// MIDI control events for a channel. The floating-point values of the
/// non-raw events are carried as the bit pattern of an `f32`
/// (`f32::to_bits`); the core passes them on unchanged.
#[derive(Debug, Clone, Copy, PartialEq, Eq, Structural)]
pub enum ControlEvent {
    /// A raw control change event: controller number and value.
    Raw(u8, u8),
    /// The pitch bend strength, in tones.
    PitchBendSensitivity(u32),
    /// The pitch bend value, between -1 and 1.
    PitchBendValue(u32),
    /// The pitch bend, product of value * sensitivity.
    PitchBend(u32),
    /// Fine tune value in cents.
    FineTune(u32),
    /// Coarse tune value in semitones.
    CoarseTune(u32),
}

/// MIDI events for a channel.
#[derive(Debug, Clone, Copy, PartialEq, Eq, Structural)]
pub enum ChannelAudioEvent {
    /// Starts a new note voice.
    NoteOn { key: u8, vel: u8 },
    /// Signals off to a note voice.
    NoteOff { key: u8 },
    /// Signal off to all voices.
    AllNotesOff,
    /// Kill all voices without decay.
    AllNotesKilled,
    /// Resets all CC to their default values.
    ResetControl,
    /// Control event for the channel.
    Control(ControlEvent),
    /// Program change event.
    ProgramChange(u8),
    /// Resets the channel's controllers and selects program (0, 0).
    SystemReset,
}

/// Wrapper enum for various events for a channel.
#[derive(Debug, Clone)]
pub enum ChannelEvent<SF> {
    /// Audio event.
    Audio(ChannelAudioEvent),
    /// Configuration event for the channel.
    Config(ChannelConfigEvent<SF>),
}

/// Wrapper enum for various events to be sent to a MIDI synthesizer.
#[derive(Debug, Clone)]
pub enum SynthEvent<SF> {
    /// A channel event to be sent to the specified channel.
    Channel(u32, ChannelEvent<SF>),
    /// A channel event to be sent to all available channels.
    AllChannels(ChannelEvent<SF>),
}

} // verus!
