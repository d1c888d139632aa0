use std::sync::Arc;

use xsynth::audio_stream::{AudioStreamParams, ChannelCount};
use xsynth::config::SoundfontInitOptions;
use xsynth::soundfont::{
    samples_for_stream, sfz_instrument, sfz_ranges, RegionRange, SampleSoundfont, SampleVoiceFactory,
    SampleVoiceSpawner, SfzRegionRange, SoundfontBase, SoundfontInstrument,
};
use xsynth::voice::{ReleaseType, VoiceControlData, VoiceGeneratorBase};

#[derive(Debug, Clone, Copy, PartialEq)]
struct Gen(u32);

impl VoiceGeneratorBase for Gen {
    fn ended(&self) -> bool {
        false
    }
    fn signal_release(&mut self, _rel_type: ReleaseType) {}
}

#[derive(Debug, PartialEq)]
struct Params {
    region: usize,
    key: u8,
    vel: u8,
}

impl SampleVoiceFactory for Params {
    type Generator = Gen;
    fn build_generator(&self, _vel: u8, _stream_params: AudioStreamParams, _control: &VoiceControlData) -> Gen {
        Gen(self.region as u32)
    }
}

fn make(region: usize, key: u8, vel: u8) -> Arc<Params> {
    Arc::new(Params { region, key, vel })
}

fn regions_at(inst: &SoundfontInstrument<Params>, key: u8, vel: u8) -> Vec<usize> {
    inst.params_vec_at(key, vel).iter().map(|p| p.region).collect()
}

fn spawned(spawners: &Vec<SampleVoiceSpawner<Params>>) -> Vec<(usize, u8, u8)> {
    spawners.iter().map(|s| (s.params().region, s.params().key, s.params().vel)).collect()
}

fn range(key_lo: u8, key_hi: u8, vel_lo: u8, vel_hi: u8) -> RegionRange {
    RegionRange { key_lo, key_hi, vel_lo, vel_hi }
}

#[test]
fn regions_fill_cells_in_order() {
    let mut inst: SoundfontInstrument<Params> = SoundfontInstrument::new(1, 2);
    inst.add_regions(&vec![range(60, 61, 0, 63), range(61, 62, 64, 127), range(61, 61, 0, 127)], make);
    assert_eq!(regions_at(&inst, 60, 10), vec![0]);
    assert_eq!(regions_at(&inst, 61, 10), vec![0, 2]);
    assert_eq!(regions_at(&inst, 61, 100), vec![1, 2]);
    assert_eq!(regions_at(&inst, 62, 100), vec![1]);
    assert!(regions_at(&inst, 62, 10).is_empty());
    assert!(regions_at(&inst, 59, 10).is_empty());
    let p = &inst.params_vec_at(62, 100)[0];
    assert_eq!((p.key, p.vel), (62, 100));
    assert_eq!((inst.bank(), inst.preset()), (1, 2));
}

#[test]
fn empty_region_adds_nothing() {
    let mut inst: SoundfontInstrument<Params> = SoundfontInstrument::new(0, 0);
    inst.add_regions(&vec![range(10, 9, 0, 127)], make);
    assert!(regions_at(&inst, 9, 0).is_empty());
    assert!(regions_at(&inst, 10, 0).is_empty());
}

#[test]
fn preset_added_when_selected() {
    let stream = AudioStreamParams::new(48000, ChannelCount::Stereo);
    let mut sf: SampleSoundfont<Params> = SampleSoundfont::new(stream);
    let all = SoundfontInitOptions::default();
    assert!(sf.add_preset(&all, 3, 4, &vec![range(60, 60, 0, 127)], make));
    let mut only = SoundfontInitOptions::default();
    only.bank = Some(3);
    only.preset = Some(5);
    assert!(!sf.add_preset(&only, 3, 4, &vec![range(61, 61, 0, 127)], make));
    assert!(sf.add_preset(&only, 3, 5, &vec![range(61, 61, 0, 127)], make));
    assert_eq!(sf.instrument_count(), 2);
    assert_eq!(spawned(&sf.get_attack_voice_spawners_at(3, 4, 60, 90)), vec![(0, 60, 90)]);
    assert!(sf.get_attack_voice_spawners_at(3, 4, 61, 90).is_empty());
    assert_eq!(spawned(&sf.get_attack_voice_spawners_at(3, 5, 61, 1)), vec![(0, 61, 1)]);
    assert_eq!(sf.get_attack_voice_spawners_at(3, 5, 61, 1)[0].stream_params(), stream);
    // a missing program gives nothing, whatever the key and velocity
    assert!(sf.get_attack_voice_spawners_at(9, 9, 200, 200).is_empty());
    assert!(sf.get_release_voice_spawners_at(3, 4, 200, 200).is_empty());
}

#[test]
fn sfz_ranges_skip_controller_regions() {
    let regions = vec![
        SfzRegionRange { key_lo: 0, key_hi: 127, vel_lo: 0, vel_hi: 127 },
        SfzRegionRange { key_lo: -1, key_hi: -1, vel_lo: 0, vel_hi: 127 },
        SfzRegionRange { key_lo: -1, key_hi: 5, vel_lo: 0, vel_hi: 127 },
        SfzRegionRange { key_lo: 40, key_hi: 42, vel_lo: 10, vel_hi: 20 },
    ];
    let r = sfz_ranges(&regions);
    assert_eq!(r.len(), 4);
    assert_eq!(r[0], range(0, 127, 0, 127));
    assert!(r[1].key_lo > r[1].key_hi);
    assert!(r[2].key_lo > r[2].key_hi);
    assert_eq!(r[3], range(40, 42, 10, 20));
}

#[test]
fn sfz_instrument_program_and_regions() {
    let regions = vec![
        SfzRegionRange { key_lo: 50, key_hi: 51, vel_lo: 0, vel_hi: 127 },
        SfzRegionRange { key_lo: -1, key_hi: 60, vel_lo: 0, vel_hi: 127 },
        SfzRegionRange { key_lo: 51, key_hi: 51, vel_lo: 0, vel_hi: 127 },
    ];
    let inst = sfz_instrument(&SoundfontInitOptions::default(), &regions, make);
    assert_eq!((inst.bank(), inst.preset()), (0, 0));
    assert_eq!(regions_at(&inst, 50, 7), vec![0]);
    assert_eq!(regions_at(&inst, 51, 7), vec![0, 2]);
    assert!(regions_at(&inst, 55, 7).is_empty());
    let mut opts = SoundfontInitOptions::default();
    opts.bank = Some(8);
    opts.preset = Some(9);
    let inst = sfz_instrument(&opts, &regions, make);
    assert_eq!((inst.bank(), inst.preset()), (8, 9));
}

#[test]
fn mono_sample_fills_both_sides() {
    let a: Arc<[f32]> = Arc::from(vec![0.5f32, 0.25]);
    let out = samples_for_stream(vec![a.clone()], ChannelCount::Stereo);
    assert_eq!(out.len(), 2);
    assert!(Arc::ptr_eq(&out[0], &a) && Arc::ptr_eq(&out[1], &a));
    let out = samples_for_stream(vec![a.clone()], ChannelCount::Mono);
    assert_eq!(out.len(), 1);
    let b: Arc<[f32]> = Arc::from(vec![1.0f32]);
    let out = samples_for_stream(vec![a.clone(), b.clone()], ChannelCount::Stereo);
    assert!(Arc::ptr_eq(&out[0], &a) && Arc::ptr_eq(&out[1], &b));
}
