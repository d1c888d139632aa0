use std::sync::Arc;

use xsynth::audio_stream::{AudioStreamParams, ChannelCount};
use xsynth::channel_group::{channel_count_for, clone_config, ChannelGroup, MAX_EVENT_CACHE_SIZE};
use xsynth::config::{ChannelGroupConfig, ChannelInitOptions, ParallelismOptions, SynthFormat};
use xsynth::control::ControlAction;
use xsynth::events::{ChannelAudioEvent, ChannelConfigEvent, ChannelEvent, ControlEvent, KeyNoteEvent, SynthEvent};
use xsynth::soundfont::{SampleSoundfont, SampleVoiceFactory, SoundfontInstrument};
use xsynth::voice::{ReleaseType, VoiceControlData, VoiceGeneratorBase};

#[derive(Debug, Clone, Copy, PartialEq)]
struct Gen;

impl VoiceGeneratorBase for Gen {
    fn ended(&self) -> bool {
        false
    }
    fn signal_release(&mut self, _rel_type: ReleaseType) {}
}

struct Params;

impl SampleVoiceFactory for Params {
    type Generator = Gen;
    fn build_generator(&self, _vel: u8, _stream_params: AudioStreamParams, _control: &VoiceControlData) -> Gen {
        Gen
    }
}

type Group = ChannelGroup<SampleSoundfont<Params>, Gen>;

fn config(format: SynthFormat) -> ChannelGroupConfig {
    ChannelGroupConfig {
        channel_init_options: ChannelInitOptions { fade_out_killing: false },
        format,
        audio_params: AudioStreamParams::new(44100, ChannelCount::Stereo),
        parallelism: ParallelismOptions::auto_per_key(),
    }
}

#[test]
fn midi_format_has_sixteen_channels_with_drums_on_ten() {
    let g: Group = ChannelGroup::new(config(SynthFormat::MidiSingle));
    assert_eq!(g.channel_count(), 16);
    assert!(g.channel(9).params().percussion);
    assert!(!g.channel(0).params().percussion);
    assert_eq!(g.cached_event_count(), 0);
    assert_eq!(channel_count_for(SynthFormat::MidiSingle), 16);
}

#[test]
fn custom_format_has_no_drums() {
    let g: Group = ChannelGroup::new(config(SynthFormat::Custom { channels: 12 }));
    assert_eq!(g.channel_count(), 12);
    assert!(!g.channel(9).params().percussion);
}

#[test]
fn audio_events_wait_until_flushed() {
    let mut g: Group = ChannelGroup::new(config(SynthFormat::MidiSingle));
    let r = g.send_event(SynthEvent::Channel(2, ChannelEvent::Audio(ChannelAudioEvent::NoteOn { key: 60, vel: 100 })));
    assert!(r.is_none());
    assert_eq!(g.cached_event_count(), 1);
    assert_eq!(g.channel_events(2).len(), 1);
    assert!(g.channel(2).key_events(60).is_empty());
    let actions = g.flush_events();
    assert_eq!(actions.len(), 16);
    assert_eq!(actions[2], vec![ControlAction::Nothing]);
    assert!(actions[3].is_empty());
    assert_eq!(g.cached_event_count(), 0);
    assert_eq!(g.channel(2).key_events(60), &vec![KeyNoteEvent::On(100)]);
}

#[test]
fn events_to_all_channels_count_once_per_channel() {
    let mut g: Group = ChannelGroup::new(config(SynthFormat::MidiSingle));
    g.send_event(SynthEvent::AllChannels(ChannelEvent::Audio(ChannelAudioEvent::Control(ControlEvent::Raw(7, 90)))));
    assert_eq!(g.cached_event_count(), 16);
    let actions = g.flush_events();
    for c in 0..16 {
        assert_eq!(actions[c], vec![ControlAction::Volume(90)]);
    }
}

#[test]
fn config_events_apply_at_once() {
    let mut g: Group = ChannelGroup::new(config(SynthFormat::MidiSingle));
    g.send_event(SynthEvent::Channel(3, ChannelEvent::Config(ChannelConfigEvent::SetLayerCount(Some(8)))));
    assert_eq!(g.channel(3).params().layers, Some(8));
    assert_eq!(g.channel(4).params().layers, Some(4));
    g.send_event(SynthEvent::AllChannels(ChannelEvent::Config(ChannelConfigEvent::SetLayerCount(None))));
    assert_eq!(g.channel(4).params().layers, None);
    assert_eq!(g.cached_event_count(), 0);
}

#[test]
fn soundfonts_reach_every_channel() {
    let mut g: Group = ChannelGroup::new(config(SynthFormat::MidiSingle));
    let mut inst = SoundfontInstrument::new(0, 0);
    inst.add_region(60, 60, 0, 127, |_k, _v| Arc::new(Params));
    let mut sf = SampleSoundfont::new(AudioStreamParams::new(44100, ChannelCount::Stereo));
    sf.add_instrument(inst);
    g.send_event(SynthEvent::AllChannels(ChannelEvent::Config(ChannelConfigEvent::SetSoundfonts(vec![Arc::new(sf)]))));
    for c in 0..16 {
        assert_eq!(g.channel(c).params().channel_sf.spawn_voices_attack(60, 10).len(), 1);
    }
}

#[test]
fn too_many_events_flush_at_once() {
    let mut g: Group = ChannelGroup::new(config(SynthFormat::Custom { channels: 1 }));
    for _ in 0..MAX_EVENT_CACHE_SIZE {
        let ev = ChannelEvent::Audio(ChannelAudioEvent::NoteOff { key: 1 });
        assert!(g.send_event(SynthEvent::Channel(0, ev)).is_none());
    }
    assert_eq!(g.cached_event_count(), MAX_EVENT_CACHE_SIZE);
    let r = g.send_event(SynthEvent::Channel(0, ChannelEvent::Audio(ChannelAudioEvent::NoteOff { key: 1 })));
    let actions = r.expect("the events are flushed");
    assert_eq!(actions[0].len(), MAX_EVENT_CACHE_SIZE as usize + 1);
    assert_eq!(g.cached_event_count(), 0);
    assert_eq!(g.channel(0).key_events(1).len(), MAX_EVENT_CACHE_SIZE as usize + 1);
}

#[test]
fn config_copy_keeps_soundfonts() {
    let sf: Arc<SampleSoundfont<Params>> = Arc::new(SampleSoundfont::new(AudioStreamParams::new(48000, ChannelCount::Mono)));
    let e = ChannelConfigEvent::SetSoundfonts(vec![sf.clone()]);
    match clone_config(&e) {
        ChannelConfigEvent::SetSoundfonts(v) => {
            assert_eq!(v.len(), 1);
            assert!(Arc::ptr_eq(&v[0], &sf));
        }
        _ => panic!("wrong variant"),
    }
    match clone_config::<SampleSoundfont<Params>>(&ChannelConfigEvent::SetPercussionMode(true)) {
        ChannelConfigEvent::SetPercussionMode(b) => assert!(b),
        _ => panic!("wrong variant"),
    }
}
