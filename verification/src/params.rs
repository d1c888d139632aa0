use std::sync::atomic::AtomicU64;
use std::sync::atomic::Ordering;
use std::sync::Arc;
use vstd::prelude::*;

use crate::audio_stream::AudioStreamParams;
use crate::channel_sf::{ChannelSoundfont, ProgramDescriptor};
use crate::events::ChannelConfigEvent;
use crate::soundfont::SoundfontBase;

verus! {

/// The statistics of a channel: the number of active voices, shared by all
/// its keys and readable from other threads.
#[derive(Debug)]
pub struct VoiceChannelStats {
    pub voice_counter: Arc<AtomicU64>,
}

impl VoiceChannelStats {
    /// Statistics with a voice count of 0.
    pub fn new() -> (r: Self) {
        VoiceChannelStats { voice_counter: Arc::new(AtomicU64::new(0)) }
    }
}

impl Default for VoiceChannelStats {
    fn default() -> (r: Self) {
        Self::new()
    }
}

impl Clone for VoiceChannelStats {
    /// Another handle on the same counter.
    fn clone(&self) -> (r: Self)
        ensures
            r.voice_counter == self.voice_counter,
    {
        VoiceChannelStats { voice_counter: crate::helpers::arc_clone(&self.voice_counter) }
    }
}

/// Reads the statistics of a channel.
pub struct VoiceChannelStatsReader {
    stats: VoiceChannelStats,
}

impl VoiceChannelStatsReader {
    /// A reader of `stats`.
    pub fn new(stats: VoiceChannelStats) -> (r: Self)
        ensures
            r.stats() == stats,
    {
        VoiceChannelStatsReader { stats }
    }

    pub closed spec fn stats(&self) -> VoiceChannelStats {
        self.stats
    }

    /// The active voice count of the channel. The counter is shared with
    /// the threads that render the channel's keys, so what it holds at the
    /// time of the read is not stated here.
    pub fn voice_count(&self) -> (r: u64) {
        self.stats.voice_counter.load(Ordering::Relaxed)
    }
}

/// The parameters of a channel that do not change.
#[derive(Debug, Clone, Copy, PartialEq, Eq, Structural)]
pub struct VoiceChannelConst {
    pub stream_params: AudioStreamParams,
}

/// The bank for a bank select: the MIDI banks 0 to 127 (128 is the
/// percussion bank, which only percussion mode selects).
pub open spec fn selected_bank(bank: u8) -> u8 {
    if bank > 127 {
        127
    } else {
        bank
    }
}

/// The preset for a program change: the MIDI presets 0 to 127.
pub open spec fn selected_preset(preset: u8) -> u8 {
    if preset > 127 {
        127
    } else {
        preset
    }
}

/// The program a channel plays: its selected program, or in percussion
/// mode the percussion bank (128) with the selected preset.
pub open spec fn effective_program(program: ProgramDescriptor, percussion: bool) -> ProgramDescriptor {
    if percussion {
        ProgramDescriptor { bank: 128, preset: program.preset }
    } else {
        program
    }
}

/// The parameters of a channel: statistics, voice limit per key,
/// soundfonts and selected program.
pub struct VoiceChannelParams<SF: SoundfontBase> {
    pub stats: VoiceChannelStats,
    pub layers: Option<usize>,
    pub channel_sf: ChannelSoundfont<SF>,
    pub program: ProgramDescriptor,
    pub percussion: bool,
    pub constant: VoiceChannelConst,
}

impl<SF: SoundfontBase> VoiceChannelParams<SF> {
    /// The parameters of a new channel: 4 layers, no soundfonts, program
    /// (0, 0), not in percussion mode.
    pub fn new(stream_params: AudioStreamParams) -> (r: Self)
        ensures
            r.channel_sf.wf(),
            r.layers == Some(4usize),
            r.channel_sf.soundfonts() == Seq::<Arc<SF>>::empty(),
            r.channel_sf.program() == (ProgramDescriptor { bank: 0, preset: 0 }),
            r.program == (ProgramDescriptor { bank: 0, preset: 0 }),
            !r.percussion,
            r.constant.stream_params == stream_params,
    {
        VoiceChannelParams {
            stats: VoiceChannelStats::new(),
            layers: Some(4),
            channel_sf: ChannelSoundfont::new(),
            program: ProgramDescriptor { bank: 0, preset: 0 },
            percussion: false,
            constant: VoiceChannelConst { stream_params },
        }
    }

    /// Applies a configuration event: new soundfonts, a new layer count, or
    /// percussion mode on or off.
    pub fn process_config_event(&mut self, event: ChannelConfigEvent<SF>)
        requires
            old(self).channel_sf.wf(),
        ensures
            final(self).channel_sf.wf(),
            final(self).channel_sf.program() == old(self).channel_sf.program(),
            final(self).program == old(self).program,
            final(self).constant == old(self).constant,
            final(self).stats == old(self).stats,
            match event {
                ChannelConfigEvent::SetSoundfonts(sfs) => {
                    &&& final(self).channel_sf.soundfonts() == sfs@
                    &&& final(self).layers == old(self).layers
                    &&& final(self).percussion == old(self).percussion
                },
                ChannelConfigEvent::SetLayerCount(count) => {
                    &&& final(self).channel_sf == old(self).channel_sf
                    &&& final(self).layers == count
                    &&& final(self).percussion == old(self).percussion
                },
                ChannelConfigEvent::SetPercussionMode(set) => {
                    &&& final(self).channel_sf == old(self).channel_sf
                    &&& final(self).layers == old(self).layers
                    &&& final(self).percussion == set
                },
            },
    {
        match event {
            ChannelConfigEvent::SetSoundfonts(soundfonts) => {
                self.channel_sf.set_soundfonts(soundfonts);
            },
            ChannelConfigEvent::SetLayerCount(count) => {
                self.layers = count;
            },
            ChannelConfigEvent::SetPercussionMode(set) => {
                self.percussion = set;
            },
        }
    }

    /// Selects a bank (bank select, CC 0); taken into account at the next
    /// program load.
    pub fn set_bank(&mut self, bank: u8)
        ensures
            *final(self) == (VoiceChannelParams {
                program: ProgramDescriptor { bank: selected_bank(bank), preset: old(self).program.preset },
                ..*old(self)
            }),
    {
        self.program.bank = if bank > 127 {
            127
        } else {
            bank
        };
    }

    /// Selects a preset (program change); taken into account at the next
    /// program load.
    pub fn set_preset(&mut self, preset: u8)
        ensures
            *final(self) == (VoiceChannelParams {
                program: ProgramDescriptor { bank: old(self).program.bank, preset: selected_preset(preset) },
                ..*old(self)
            }),
    {
        self.program.preset = if preset > 127 {
            127
        } else {
            preset
        };
    }

    /// Loads the selected program (or, in percussion mode, the percussion
    /// bank with the selected preset) into the channel's soundfonts.
    pub fn load_program(&mut self)
        requires
            old(self).channel_sf.wf(),
        ensures
            final(self).channel_sf.wf(),
            final(self).channel_sf.program() == effective_program(old(self).program, old(self).percussion),
            old(self).percussion ==> final(self).channel_sf.program().bank == 128
                && final(self).channel_sf.program().preset == old(self).program.preset,
            !old(self).percussion ==> final(self).channel_sf.program() == old(self).program,
            final(self).channel_sf.soundfonts() == old(self).channel_sf.soundfonts(),
            final(self).program == old(self).program,
            final(self).percussion == old(self).percussion,
            final(self).layers == old(self).layers,
            final(self).constant == old(self).constant,
            final(self).stats == old(self).stats,
    {
        if self.percussion {
            let program = ProgramDescriptor { bank: 128, preset: self.program.preset };
            self.channel_sf.change_program(program);
        } else {
            let program = self.program;
            self.channel_sf.change_program(program);
        }
    }
}


/// In percussion mode a channel plays the drum kit of its selected preset
/// from the percussion bank (128): a program change to kit `p` selects
/// kit `p`, not a fixed one. Otherwise it plays its selected program.
pub proof fn lemma_percussion_program(program: ProgramDescriptor, p: u8)
    ensures
        effective_program(program, true).bank == 128,
        effective_program(program, true).preset == program.preset,
        effective_program(program, false) == program,
        p <= 127 ==> effective_program(
            ProgramDescriptor { bank: program.bank, preset: selected_preset(p) },
            true,
        ) == (ProgramDescriptor { bank: 128, preset: p }),
{
}
} // verus!
