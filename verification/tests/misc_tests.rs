use std::sync::Arc;

use xsynth::buffered::{read_len_fits, render_ahead, render_delay_nanos, LoadHistory, SampleRemainder};
use xsynth::audio_stream::ChannelCount;
use xsynth::control::{ControlAction, ControlEventData};
use xsynth::envelope::{get_stage_duration, landing_stage, EnvelopePartKind, EnvelopeStage, StageTime};
use xsynth::helpers::are_arc_vecs_equal;
use xsynth::interface::{ConfigPath, SFDescriptor, SFList};
use xsynth::midi::{kdmapi_version, pack_midi_message};
use xsynth::sampler::{
    buffer_get, LoopParams, SampleReader, SampleReaderLoop, SampleReaderLoopSustain, SampleReaderNoLoop, SampleReaders,
};
use xsynth::soundfont::{
    effective_loop_mode, key_vel_to_index, program_selected, region_plays_on_keys, single_instrument_program,
    soundfont_format, LoopMode, SoundfontFormat, SoundfontInstrument,
};
use xsynth::config::SoundfontInitOptions;

#[test]
fn arc_lists_compare_by_pointer() {
    let a = Arc::new(5u32);
    let b = Arc::new(5u32);
    assert!(are_arc_vecs_equal(&[a.clone(), b.clone()], &[a.clone(), b.clone()]));
    assert!(!are_arc_vecs_equal(&[a.clone()], &[b.clone()]));
    assert!(!are_arc_vecs_equal(&[a.clone()], &[a.clone(), b.clone()]));
    let none: [Arc<u32>; 0] = [];
    assert!(are_arc_vecs_equal(&none, &none));
}

#[test]
fn control_defaults_and_data_entry() {
    let mut d = ControlEventData::new_defaults();
    assert_eq!((d.selected_lsb, d.selected_msb), (-1, -1));
    assert_eq!(d.pitch_bend_sensitivity_msb, 2);
    assert_eq!(d.process_raw(0x06, 5), ControlAction::Nothing);
    assert_eq!(d.process_raw(0x65, 200), ControlAction::Nothing);
    assert_eq!(d.selected_msb, -56);
    assert_eq!(d.process_raw(0x40, 63), ControlAction::Damper(false));
    assert_eq!(d.process_raw(0x40, 64), ControlAction::Damper(true));
    assert_eq!(d.process_raw(0x40, 200), ControlAction::Damper(false));
    assert_eq!(d.process_raw(0x47, 65), ControlAction::Resonance(Some(65)));
    assert_eq!(d.process_raw(0x47, 64), ControlAction::Resonance(None));
    assert_eq!(d.process_raw(0x4A, 10), ControlAction::Cutoff(Some(74)));
    assert_eq!(d.process_raw(0x4A, 64), ControlAction::Cutoff(None));
    assert_eq!(d.process_raw(0x7B, 0), ControlAction::AllNotesOff);
    assert_eq!(d.process_raw(0x08, 3), ControlAction::Pan(3));
}

#[test]
fn envelope_stages_advance_to_finished() {
    let mut s = EnvelopeStage::Delay;
    let mut order = Vec::new();
    for _ in 0..8 {
        order.push(s.as_usize());
        s = s.next_stage();
    }
    assert_eq!(order, vec![0, 1, 2, 3, 4, 5, 6, 6]);
    assert_eq!(EnvelopeStage::Finished.next_stage(), EnvelopeStage::Finished);
}

#[test]
fn envelope_passes_over_empty_stages() {
    let parts = [
        EnvelopePartKind::Lerp { duration: 0 },
        EnvelopePartKind::Lerp { duration: 15 },
        EnvelopePartKind::Lerp { duration: 0 },
        EnvelopePartKind::Lerp { duration: 17 },
        EnvelopePartKind::Hold,
        EnvelopePartKind::LerpToZeroCurve { duration: 0 },
        EnvelopePartKind::Hold,
    ];
    assert_eq!(landing_stage(&parts, EnvelopeStage::Delay), EnvelopeStage::Attack);
    assert_eq!(landing_stage(&parts, EnvelopeStage::Hold), EnvelopeStage::Decay);
    assert_eq!(landing_stage(&parts, EnvelopeStage::Sustain), EnvelopeStage::Sustain);
    assert_eq!(landing_stage(&parts, EnvelopeStage::Release), EnvelopeStage::Finished);
    assert_eq!(get_stage_duration(&parts, EnvelopeStage::Decay), 17);
    assert_eq!(get_stage_duration(&parts, EnvelopeStage::Sustain), 0);
}

fn params(mode: LoopMode) -> LoopParams {
    LoopParams { mode, offset: 2, start: 10, end: 19 }
}

#[test]
fn sample_readers() {
    let mut once = SampleReaderNoLoop::new(100, params(LoopMode::NoLoop));
    assert_eq!(once.position(5), 7);
    assert!(!once.is_past_end(101));
    assert!(once.is_past_end(102));
    let mut looped = SampleReaderLoop::new(params(LoopMode::LoopContinuous));
    assert_eq!(looped.position(17), 19);
    assert_eq!(looped.position(18), 10);
    assert_eq!(looped.position(26), 18);
    assert_eq!(looped.position(27), 10);
    assert!(!looped.is_past_end(1_000_000));
    let mut sustain = SampleReaderLoopSustain::new(100, params(LoopMode::LoopSustain));
    assert_eq!(sustain.position(20), 12);
    sustain.signal_release();
    assert!(sustain.is_released);
    assert_eq!(sustain.position(25), 27 - 22 + 19);
    assert!(!sustain.is_past_end(30));
    assert!(sustain.is_past_end(124));
    assert_eq!(
        SampleReaders::new(3, params(LoopMode::OneShot)),
        SampleReaders::NoLoop(SampleReaderNoLoop { length: 3, offset: 2 })
    );
    let mut by_mode = SampleReaders::new(100, params(LoopMode::LoopSustain));
    assert_eq!(by_mode.position(20), 12);
    by_mode.signal_release();
    assert_eq!(by_mode.position(25), 24);
    assert!(matches!(SampleReaders::new(100, params(LoopMode::LoopContinuous)), SampleReaders::Loop(_)));
    assert_eq!(buffer_get(&[1.0f32, 2.0], 1, 0.0), 2.0);
    assert_eq!(buffer_get(&[1.0f32, 2.0], 2, 0.0), 0.0);
}

#[test]
fn render_thread_decisions() {
    assert!(render_ahead(1200, 1000));
    assert!(!render_ahead(1100, 1000));
    assert!(render_ahead(0, -10));
    assert_eq!(render_delay_nanos(441, 44100), 9_000_000);
    assert_eq!(render_delay_nanos(1, 3), 299_999_999);
    assert!(read_len_fits(512, ChannelCount::Stereo));
    assert!(!read_len_fits(513, ChannelCount::Stereo));
    assert!(read_len_fits(513, ChannelCount::Mono));
}

#[test]
fn remainder_reads() {
    let mut r: SampleRemainder<u8> = SampleRemainder::new();
    assert!(r.needs_buffer());
    let mut dest = vec![0u8; 5];
    assert_eq!(r.read_remainder(&mut dest), 0);
    let i = r.read_buffer(&mut dest, 0, vec![1, 2, 3]);
    assert_eq!(i, 3);
    assert!(r.needs_buffer());
    let i = r.read_buffer(&mut dest, i, vec![4, 5, 6, 7]);
    assert_eq!(i, 5);
    assert_eq!(dest, vec![1, 2, 3, 4, 5]);
    assert!(!r.needs_buffer());
    let mut dest2 = vec![9u8; 1];
    assert_eq!(r.read_remainder(&mut dest2), 1);
    assert_eq!(dest2, vec![6]);
    assert_eq!(r.read_remainder(&mut dest2), 1);
    assert_eq!(dest2, vec![7]);
    assert!(r.needs_buffer());
}

#[test]
fn load_history_keeps_newest_hundred() {
    let mut h: LoadHistory<u32> = LoadHistory::new();
    assert!(h.newest().is_none());
    for i in 0..150u32 {
        h.record(i);
    }
    assert_eq!(h.len(), 100);
    assert_eq!(h.newest(), Some(&149));
    assert_eq!(*h.get(99), 50);
}

#[test]
fn soundfont_entries() {
    let mut d = SFDescriptor::default();
    assert!(d.enabled);
    assert_eq!(d.path, "");
    d.path = "piano.sfz".to_string();
    assert_eq!(d.path(true), Some("piano.sfz".to_string()));
    assert_eq!(d.path(false), None);
    d.enabled = false;
    assert_eq!(d.path(true), None);
    let mut list = SFList::default();
    assert_eq!(list.soundfonts.len(), 1);
    list.soundfonts = vec![
        SFDescriptor { path: "a.sf2".to_string(), enabled: true, options: SoundfontInitOptions::default() },
        SFDescriptor { path: "b.sf2".to_string(), enabled: false, options: SoundfontInitOptions::default() },
        SFDescriptor { path: "c.sfz".to_string(), enabled: true, options: SoundfontInitOptions::default() },
        SFDescriptor { path: "d.sfz".to_string(), enabled: true, options: SoundfontInitOptions::default() },
    ];
    let load = list.soundfonts_to_load(&vec![true, true, false, true]);
    let names: Vec<String> = load.into_iter().map(|(p, _)| p).collect();
    assert_eq!(names, vec!["a.sf2".to_string(), "d.sfz".to_string()]);
    assert_eq!(SFList::filename(), "soundfonts.json");
}

#[test]
fn midi_messages_pack() {
    assert_eq!(pack_midi_message(&[0x90, 60, 100]), 0x90 | (60 << 8) | (100 << 16));
    assert_eq!(pack_midi_message(&[0xC0, 5]), 0xC0 | (5 << 8));
    assert_eq!(pack_midi_message(&[]), 0);
    assert_eq!(pack_midi_message(&[1, 2, 3, 4]), 1 | (2 << 8) | (3 << 16));
    assert_eq!(kdmapi_version(), (4, 1, 0, 5));
}

#[test]
fn soundfont_loading_rules() {
    assert_eq!(key_vel_to_index(1, 2), 130);
    assert!(region_plays_on_keys(0, 127));
    assert!(!region_plays_on_keys(-1, 60));
    assert!(!region_plays_on_keys(-5, -1));
    assert!(region_plays_on_keys(-5, -2));
    let mut o = SoundfontInitOptions::default();
    assert!(program_selected(&o, 3, 4));
    o.bank = Some(3);
    assert!(program_selected(&o, 3, 4));
    assert!(program_selected(&o, 259, 4));
    assert!(!program_selected(&o, 2, 4));
    o.preset = Some(1);
    assert!(!program_selected(&o, 3, 4));
    assert_eq!(single_instrument_program(&o), (3, 1));
    assert_eq!(single_instrument_program(&SoundfontInitOptions::default()), (0, 0));
    assert_eq!(effective_loop_mode(LoopMode::LoopContinuous, 5, 5), LoopMode::NoLoop);
    assert_eq!(effective_loop_mode(LoopMode::LoopSustain, 5, 9), LoopMode::LoopSustain);
    assert_eq!(soundfont_format(Some("SFZ")), Some(SoundfontFormat::Sfz));
    assert_eq!(soundfont_format(Some("sF2")), Some(SoundfontFormat::Sf2));
    assert_eq!(soundfont_format(Some("wav")), None);
    assert_eq!(soundfont_format(None), None);
}

#[test]
fn instrument_regions_fill_cells() {
    let mut inst: SoundfontInstrument<u32> = SoundfontInstrument::new(0, 5);
    assert_eq!((inst.bank(), inst.preset()), (0, 5));
    inst.add_region(60, 61, 10, 20, |k, v| Arc::new(k as u32 * 1000 + v as u32));
    assert_eq!(inst.params_vec_at(60, 10).len(), 1);
    assert_eq!(*inst.params_vec_at(61, 20)[0], 61020);
    assert!(inst.params_vec_at(62, 10).is_empty());
    assert!(inst.params_vec_at(60, 21).is_empty());
    inst.add_region(61, 61, 20, 20, |_k, _v| Arc::new(7));
    assert_eq!(inst.params_vec_at(61, 20).len(), 2);
    assert_eq!(*inst.params_vec_at(61, 20)[1], 7);
}

fn check_stage_time(width: u32) {
    let mut time = StageTime::new(5, 20, width);
    let mut time2 = StageTime::new(4, 20, width);
    assert_eq!(time.simd_array_start(), 5);
    assert!(!time.is_ending());
    let mut i: u64 = 5;
    while time.simd_array_start() + width as u64 <= 20 {
        assert_eq!(time.simd_array_start(), i);
        assert!(!time.is_ending());
        assert!(!time.is_intersecting_end());
        time.increment();
        time2.increment();
        i += width as u64;
    }
    assert_eq!(time.simd_array_start(), i);
    assert!(time.is_ending());
    assert!(time.is_intersecting_end());
    assert!(!time2.is_ending());
    time2.increment();
    assert!(time2.is_ending());
    assert!(!time2.is_intersecting_end());
}

#[test]
fn test_stage_time() {
    for width in [4, 8] {
        check_stage_time(width);
    }
    let mut t = StageTime::new(0, 10, 4);
    t.increment_by(7);
    assert_eq!((t.simd_array_start(), t.simd_array_end()), (7, 10));
    assert!(t.is_intersecting_end());
}
