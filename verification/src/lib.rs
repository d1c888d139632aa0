//! A verified core for a SoundFont MIDI synthesizer: audio stream parameters,
//! channel and soundfont configuration, MIDI event decoding, the voice
//! buffer that keeps track of active voices per key, the per-channel
//! spawner matrix and the soundfont program selection.

pub mod audio_stream;
pub mod voice;
pub mod config;
pub mod voice_buffer;
pub mod control;
pub mod helpers;
pub mod voice_spawner;
pub mod soundfont;
pub mod channel_sf;
pub mod events;
pub mod params;
pub mod key;
pub mod channel;
pub mod channel_group;
pub mod clib;
pub mod buffered;
pub mod envelope;
pub mod sampler;
pub mod interface;
pub mod midi;
