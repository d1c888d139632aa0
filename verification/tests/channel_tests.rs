use std::sync::Arc;

use xsynth::audio_stream::{AudioStreamParams, ChannelCount};
use xsynth::channel::VoiceChannel;
use xsynth::channel_sf::{ChannelSoundfont, ProgramDescriptor};
use xsynth::config::ChannelInitOptions;
use xsynth::control::ControlAction;
use xsynth::events::{ChannelAudioEvent, ChannelConfigEvent, ChannelEvent, ControlEvent, KeyNoteEvent};
use xsynth::soundfont::{SampleSoundfont, SampleVoiceFactory, SoundfontBase, SoundfontInstrument};
use xsynth::voice::{ReleaseType, VoiceControlData, VoiceGeneratorBase};

#[derive(Debug, Clone, Copy, PartialEq)]
struct Gen {
    tag: u32,
    vel: u8,
    ended: bool,
}

impl VoiceGeneratorBase for Gen {
    fn ended(&self) -> bool {
        self.ended
    }
    fn signal_release(&mut self, _rel_type: ReleaseType) {}
}

#[derive(Debug)]
struct Params(u32);

impl SampleVoiceFactory for Params {
    type Generator = Gen;
    fn build_generator(&self, vel: u8, _stream_params: AudioStreamParams, _control: &VoiceControlData) -> Gen {
        Gen { tag: self.0, vel, ended: false }
    }
}

fn stream() -> AudioStreamParams {
    AudioStreamParams::new(44100, ChannelCount::Stereo)
}

fn instrument(bank: u8, preset: u8, lo: u8, hi: u8, tag: u32) -> SoundfontInstrument<Params> {
    let mut inst = SoundfontInstrument::new(bank, preset);
    inst.add_region(lo, hi, 0, 127, move |_k, _v| Arc::new(Params(tag)));
    inst
}

fn soundfont(instruments: Vec<SoundfontInstrument<Params>>) -> Arc<SampleSoundfont<Params>> {
    let mut sf = SampleSoundfont::new(stream());
    for i in instruments {
        sf.add_instrument(i);
    }
    Arc::new(sf)
}

fn tags(spawners: &Vec<xsynth::soundfont::SampleVoiceSpawner<Params>>) -> Vec<u32> {
    spawners.iter().map(|s| s.params().0).collect()
}

#[test]
fn sample_soundfont_attack_spawners() {
    let sf = soundfont(vec![instrument(0, 0, 60, 62, 7)]);
    let found = sf.get_attack_voice_spawners_at(0, 0, 61, 100);
    assert_eq!(tags(&found), vec![7]);
    assert_eq!(found[0].vel(), 100);
    assert_eq!(found[0].stream_params(), stream());
    assert!(sf.get_attack_voice_spawners_at(0, 0, 10, 100).is_empty());
    assert!(sf.get_attack_voice_spawners_at(0, 1, 61, 100).is_empty());
    assert!(sf.get_release_voice_spawners_at(0, 0, 61, 100).is_empty());
}

#[test]
fn first_instrument_with_program_wins() {
    let sf = soundfont(vec![instrument(0, 0, 60, 60, 1), instrument(0, 0, 60, 60, 2)]);
    assert_eq!(tags(&sf.get_attack_voice_spawners_at(0, 0, 60, 1)), vec![1]);
}

#[test]
fn channel_soundfont_plays_program() {
    let mut csf: ChannelSoundfont<SampleSoundfont<Params>> = ChannelSoundfont::new();
    assert!(csf.spawn_voices_attack(60, 100).is_empty());
    csf.set_soundfonts(vec![soundfont(vec![instrument(0, 0, 60, 62, 3)])]);
    assert_eq!(tags(csf.spawn_voices_attack(60, 100)), vec![3]);
    assert!(csf.spawn_voices_attack(70, 100).is_empty());
}

#[test]
fn first_soundfont_with_voices_wins() {
    let mut csf: ChannelSoundfont<SampleSoundfont<Params>> = ChannelSoundfont::new();
    let a = soundfont(vec![instrument(0, 0, 60, 60, 1)]);
    let b = soundfont(vec![instrument(0, 0, 60, 61, 2)]);
    csf.set_soundfonts(vec![a, b]);
    assert_eq!(tags(csf.spawn_voices_attack(60, 1)), vec![1]);
    assert_eq!(tags(csf.spawn_voices_attack(61, 1)), vec![2]);
}

#[test]
fn missing_bank_falls_back_to_bank_zero() {
    let mut csf: ChannelSoundfont<SampleSoundfont<Params>> = ChannelSoundfont::new();
    csf.set_soundfonts(vec![soundfont(vec![instrument(0, 5, 60, 60, 9)])]);
    csf.change_program(ProgramDescriptor { bank: 3, preset: 5 });
    assert_eq!(tags(csf.spawn_voices_attack(60, 64)), vec![9]);
    csf.change_program(ProgramDescriptor { bank: 3, preset: 6 });
    assert!(csf.spawn_voices_attack(60, 64).is_empty());
}

#[test]
fn missing_drum_kit_falls_back_to_standard_kit() {
    let mut csf: ChannelSoundfont<SampleSoundfont<Params>> = ChannelSoundfont::new();
    csf.set_soundfonts(vec![soundfont(vec![instrument(128, 0, 36, 36, 4), instrument(0, 7, 36, 36, 5)])]);
    csf.change_program(ProgramDescriptor { bank: 128, preset: 7 });
    assert_eq!(tags(csf.spawn_voices_attack(36, 100)), vec![4]);
}

type Channel = VoiceChannel<SampleSoundfont<Params>, Gen>;

fn channel_with_piano() -> Channel {
    let mut ch: Channel = VoiceChannel::new(ChannelInitOptions { fade_out_killing: false }, stream());
    let sf = soundfont(vec![instrument(0, 0, 0, 127, 1), instrument(0, 3, 0, 127, 2), instrument(128, 0, 0, 127, 3)]);
    ch.process_event(ChannelEvent::Config(ChannelConfigEvent::SetSoundfonts(vec![sf])));
    ch
}

fn audio(e: ChannelAudioEvent) -> ChannelEvent<SampleSoundfont<Params>> {
    ChannelEvent::Audio(e)
}

#[test]
fn note_events_wait_at_their_key() {
    let mut ch = channel_with_piano();
    assert_eq!(ch.process_event(audio(ChannelAudioEvent::NoteOn { key: 60, vel: 100 })), ControlAction::Nothing);
    ch.process_event(audio(ChannelAudioEvent::NoteOff { key: 60 }));
    ch.process_event(audio(ChannelAudioEvent::NoteOn { key: 200, vel: 100 }));
    assert_eq!(ch.key_events(60), &vec![KeyNoteEvent::On(100), KeyNoteEvent::Off]);
    assert!(ch.key_events(59).is_empty());
    ch.process_event(audio(ChannelAudioEvent::AllNotesOff));
    assert_eq!(ch.key_events(0), &vec![KeyNoteEvent::AllOff]);
    assert_eq!(ch.key_events(60).len(), 3);
}

#[test]
fn events_pushed_in_order() {
    let mut ch = channel_with_piano();
    let actions = ch.push_events_iter(vec![
        audio(ChannelAudioEvent::NoteOn { key: 60, vel: 100 }),
        audio(ChannelAudioEvent::ResetControl),
        audio(ChannelAudioEvent::NoteOff { key: 60 }),
        audio(ChannelAudioEvent::AllNotesKilled),
    ]);
    assert_eq!(actions, vec![ControlAction::Nothing, ControlAction::ResetControl, ControlAction::Nothing, ControlAction::Nothing]);
    assert_eq!(
        ch.key_events(60),
        &vec![KeyNoteEvent::On(100), KeyNoteEvent::Off, KeyNoteEvent::AllKilled]
    );
    assert_eq!(ch.key_events(3), &vec![KeyNoteEvent::AllKilled]);
    assert!(ch.push_events_iter(Vec::new()).is_empty());
}

#[test]
fn events_sent_in_two_lists_as_in_one() {
    let a = || vec![audio(ChannelAudioEvent::NoteOn { key: 60, vel: 90 }), audio(ChannelAudioEvent::Control(ControlEvent::Raw(64, 127)))];
    let b = || vec![audio(ChannelAudioEvent::NoteOff { key: 60 }), audio(ChannelAudioEvent::ProgramChange(3))];
    let mut one = channel_with_piano();
    let mut joined = a();
    joined.extend(b());
    let r = one.push_events_iter(joined);
    let mut two = channel_with_piano();
    let mut r2 = two.push_events_iter(a());
    r2.extend(two.push_events_iter(b()));
    assert_eq!(r, r2);
    assert_eq!(r[1], ControlAction::Damper(true));
    for k in 0..128 {
        assert_eq!(one.key_events(k), two.key_events(k));
    }
    assert_eq!(one.control_event_data(), two.control_event_data());
    assert_eq!(one.params().program, two.params().program);
}

#[test]
fn split_sends_leave_the_same_voice_records() {
    let mut one = channel_with_piano();
    let mut two = channel_with_piano();
    for ch in [&mut one, &mut two] {
        ch.process_event(audio(ChannelAudioEvent::NoteOn { key: 60, vel: 70 }));
        ch.process_event(audio(ChannelAudioEvent::Control(ControlEvent::Raw(64, 127))));
        ch.process_event(audio(ChannelAudioEvent::NoteOff { key: 60 }));
        ch.flush_key_events();
    }
    let a = || vec![audio(ChannelAudioEvent::Control(ControlEvent::Raw(0x48, 9)))];
    let b = || vec![audio(ChannelAudioEvent::Control(ControlEvent::Raw(64, 0)))];
    let mut joined = a();
    joined.extend(b());
    let r = one.push_events_iter(joined);
    let mut r2 = two.push_events_iter(a());
    r2.extend(two.push_events_iter(b()));
    assert_eq!(r, r2);
    let v1 = &one.key(60).voices().voice_at(0).voice;
    let v2 = &two.key(60).voices().voice_at(0).voice;
    assert!(v1.is_releasing() && v2.is_releasing());
    assert_eq!((v1.velocity(), v1.is_killed()), (v2.velocity(), v2.is_killed()));
    assert_eq!(one.voice_control_data(), two.voice_control_data());
}

#[test]
fn flush_plays_waiting_events() {
    let mut ch = channel_with_piano();
    ch.process_event(audio(ChannelAudioEvent::NoteOn { key: 60, vel: 100 }));
    ch.process_event(audio(ChannelAudioEvent::NoteOn { key: 61, vel: 30 }));
    ch.flush_key_events();
    assert!(ch.key_events(60).is_empty());
    assert_eq!(ch.key(60).voice_count(), 1);
    let v = &ch.key(60).voices().voice_at(0).voice;
    assert_eq!(v.velocity(), 100);
    assert_eq!(v.generator().tag, 1);
    assert_eq!(ch.key(61).voices().voice_at(0).voice.velocity(), 30);
    ch.process_event(audio(ChannelAudioEvent::NoteOff { key: 60 }));
    ch.flush_key_events();
    assert!(ch.key(60).voices().voice_at(0).voice.is_releasing());
    assert!(!ch.key(61).voices().voice_at(0).voice.is_releasing());
}

#[test]
fn program_change_selects_preset_at_next_render() {
    let mut ch = channel_with_piano();
    ch.process_event(audio(ChannelAudioEvent::ProgramChange(3)));
    assert_eq!(ch.params().program, ProgramDescriptor { bank: 0, preset: 3 });
    ch.process_event(audio(ChannelAudioEvent::NoteOn { key: 60, vel: 100 }));
    ch.flush_key_events();
    assert_eq!(ch.key(60).voices().voice_at(0).voice.generator().tag, 2);
}

#[test]
fn percussion_mode_plays_drum_bank() {
    let mut ch = channel_with_piano();
    ch.process_event(ChannelEvent::Config(ChannelConfigEvent::SetPercussionMode(true)));
    ch.process_event(audio(ChannelAudioEvent::NoteOn { key: 36, vel: 100 }));
    ch.flush_key_events();
    assert_eq!(ch.key(36).voices().voice_at(0).voice.generator().tag, 3);
    assert_eq!(ch.params().channel_sf.spawn_voices_attack(36, 1).len(), 1);
}

#[test]
fn bank_select_is_limited_to_midi_banks() {
    let mut ch = channel_with_piano();
    assert_eq!(ch.process_event(audio(ChannelAudioEvent::Control(ControlEvent::Raw(0, 5)))), ControlAction::SetBank(5));
    assert_eq!(ch.params().program.bank, 5);
    ch.process_control_event(ControlEvent::Raw(0, 200));
    assert_eq!(ch.params().program.bank, 127);
}

#[test]
fn float_controls_are_returned() {
    let mut ch = channel_with_piano();
    assert_eq!(ch.process_control_event(ControlEvent::Raw(7, 100)), ControlAction::Volume(100));
    assert_eq!(ch.process_control_event(ControlEvent::Raw(10, 64)), ControlAction::Pan(64));
    assert_eq!(ch.process_control_event(ControlEvent::Raw(11, 90)), ControlAction::Expression(90));
    let bits = 0.5f32.to_bits();
    assert_eq!(
        ch.process_control_event(ControlEvent::PitchBendValue(bits)),
        ControlAction::Floating(ControlEvent::PitchBendValue(bits))
    );
}

#[test]
fn registered_parameter_pitch_bend_range() {
    let mut ch = channel_with_piano();
    assert_eq!(ch.process_control_event(ControlEvent::Raw(0x65, 0)), ControlAction::Nothing);
    assert_eq!(ch.process_control_event(ControlEvent::Raw(0x64, 0)), ControlAction::Nothing);
    assert_eq!(
        ch.process_control_event(ControlEvent::Raw(0x06, 12)),
        ControlAction::PitchBendSensitivity { semitones: 12, cents: 0 }
    );
    assert_eq!(
        ch.process_control_event(ControlEvent::Raw(0x26, 50)),
        ControlAction::PitchBendSensitivity { semitones: 12, cents: 50 }
    );
}

#[test]
fn registered_parameter_tuning() {
    let mut ch = channel_with_piano();
    ch.process_control_event(ControlEvent::Raw(0x65, 0));
    ch.process_control_event(ControlEvent::Raw(0x64, 1));
    assert_eq!(ch.process_control_event(ControlEvent::Raw(0x06, 64)), ControlAction::FineTune(4096));
    ch.process_control_event(ControlEvent::Raw(0x64, 2));
    assert_eq!(ch.process_control_event(ControlEvent::Raw(0x06, 70)), ControlAction::CoarseTune(6));
}

#[test]
fn damper_holds_note_off() {
    let mut ch = channel_with_piano();
    ch.process_event(audio(ChannelAudioEvent::NoteOn { key: 60, vel: 100 }));
    ch.flush_key_events();
    assert_eq!(ch.process_control_event(ControlEvent::Raw(64, 127)), ControlAction::Damper(true));
    ch.process_event(audio(ChannelAudioEvent::NoteOff { key: 60 }));
    ch.flush_key_events();
    assert!(!ch.key(60).voices().voice_at(0).voice.is_releasing());
    ch.process_control_event(ControlEvent::Raw(64, 0));
    assert!(ch.key(60).voices().voice_at(0).voice.is_releasing());
}

#[test]
fn all_notes_off_releases_every_voice() {
    let mut ch = channel_with_piano();
    for vel in [10, 20, 30] {
        ch.process_event(audio(ChannelAudioEvent::NoteOn { key: 60, vel }));
    }
    ch.process_event(audio(ChannelAudioEvent::NoteOn { key: 61, vel: 40 }));
    ch.flush_key_events();
    assert_eq!(ch.key(60).voice_count(), 3);
    ch.process_event(audio(ChannelAudioEvent::AllNotesOff));
    ch.flush_key_events();
    assert_eq!(ch.key(60).voice_count(), 3);
    for i in 0..3 {
        assert!(ch.key(60).voices().voice_at(i).voice.is_releasing());
        assert!(!ch.key(60).voices().voice_at(i).voice.is_killed());
    }
    assert!(ch.key(61).voices().voice_at(0).voice.is_releasing());
}

#[test]
fn all_notes_off_with_damper_holds() {
    let mut ch = channel_with_piano();
    ch.process_event(audio(ChannelAudioEvent::NoteOn { key: 60, vel: 10 }));
    ch.process_event(audio(ChannelAudioEvent::NoteOn { key: 60, vel: 20 }));
    ch.flush_key_events();
    ch.process_control_event(ControlEvent::Raw(64, 127));
    ch.process_event(audio(ChannelAudioEvent::AllNotesOff));
    ch.flush_key_events();
    assert!(!ch.key(60).voices().voice_at(0).voice.is_releasing());
    assert!(!ch.key(60).voices().voice_at(1).voice.is_releasing());
    // all notes off held every group: lifting the damper releases them all
    ch.process_control_event(ControlEvent::Raw(64, 0));
    assert!(ch.key(60).voices().voice_at(0).voice.is_releasing());
    assert!(ch.key(60).voices().voice_at(1).voice.is_releasing());
}

#[test]
fn envelope_controls_reach_voice_control() {
    let mut ch = channel_with_piano();
    assert_eq!(ch.process_control_event(ControlEvent::Raw(0x48, 30)), ControlAction::ReleaseTime(30));
    assert_eq!(ch.process_control_event(ControlEvent::Raw(0x49, 40)), ControlAction::AttackTime(40));
    assert_eq!(ch.voice_control_data().envelope.release, Some(30));
    assert_eq!(ch.voice_control_data().envelope.attack, Some(40));
}

#[test]
fn all_sounds_off_kills_every_key() {
    let mut ch = channel_with_piano();
    ch.process_event(audio(ChannelAudioEvent::NoteOn { key: 60, vel: 100 }));
    ch.flush_key_events();
    assert_eq!(ch.process_control_event(ControlEvent::Raw(0x78, 0)), ControlAction::AllNotesKilled);
    assert_eq!(ch.key_events(5), &vec![KeyNoteEvent::AllKilled]);
    ch.flush_key_events();
    assert_eq!(ch.key(60).voice_count(), 0);
    assert_eq!(ch.process_control_event(ControlEvent::Raw(0x78, 1)), ControlAction::Nothing);
}

#[test]
fn reset_control_restores_defaults() {
    let mut ch = channel_with_piano();
    ch.process_control_event(ControlEvent::Raw(0x49, 40));
    ch.process_event(audio(ChannelAudioEvent::ProgramChange(3)));
    ch.process_control_event(ControlEvent::Raw(0, 2));
    assert_eq!(ch.process_event(audio(ChannelAudioEvent::ResetControl)), ControlAction::ResetControl);
    assert_eq!(ch.params().program, ProgramDescriptor { bank: 2, preset: 0 });
    assert_eq!(ch.voice_control_data().envelope.attack, None);
    assert_eq!(ch.process_control_event(ControlEvent::Raw(0x79, 0)), ControlAction::ResetControl);
}

#[test]
fn system_reset_selects_first_program() {
    let mut ch = channel_with_piano();
    ch.process_control_event(ControlEvent::Raw(0, 2));
    ch.process_event(audio(ChannelAudioEvent::ProgramChange(3)));
    assert_eq!(ch.process_event(audio(ChannelAudioEvent::SystemReset)), ControlAction::ResetControl);
    assert_eq!(ch.params().program, ProgramDescriptor { bank: 0, preset: 0 });
}

#[test]
fn layer_limit_applies_to_new_notes() {
    let mut ch = channel_with_piano();
    ch.process_event(ChannelEvent::Config(ChannelConfigEvent::SetLayerCount(Some(1))));
    assert_eq!(ch.params().layers, Some(1));
    ch.process_event(audio(ChannelAudioEvent::NoteOn { key: 60, vel: 10 }));
    ch.process_event(audio(ChannelAudioEvent::NoteOn { key: 60, vel: 90 }));
    ch.flush_key_events();
    assert_eq!(ch.key(60).voice_count(), 1);
    assert_eq!(ch.key(60).voices().voice_at(0).voice.velocity(), 90);
}

#[test]
fn finish_render_removes_ended_voices() {
    let mut ch = channel_with_piano();
    ch.process_event(audio(ChannelAudioEvent::NoteOn { key: 60, vel: 100 }));
    ch.flush_key_events();
    let key = ch.key_mut(60);
    key.generator_mut(0).ended = true;
    key.finish_render();
    assert_eq!(ch.key(60).voice_count(), 0);
    assert_eq!(ch.get_channel_stats().voice_count(), 0);
}

#[test]
fn voice_counter_follows_renders() {
    let mut ch = channel_with_piano();
    ch.process_event(audio(ChannelAudioEvent::NoteOn { key: 60, vel: 100 }));
    ch.process_event(audio(ChannelAudioEvent::NoteOn { key: 61, vel: 100 }));
    ch.flush_key_events();
    ch.key_mut(60).finish_render();
    ch.key_mut(61).finish_render();
    assert_eq!(ch.get_channel_stats().voice_count(), 2);
}
