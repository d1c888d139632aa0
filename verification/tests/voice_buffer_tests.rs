use xsynth::config::ChannelInitOptions;
use xsynth::voice::{ReleaseType, VoiceBase, VoiceGeneratorBase};
use xsynth::voice_buffer::VoiceBuffer;

#[derive(Debug, Clone, Copy, PartialEq)]
struct Gen {
    ended: bool,
    released: Option<ReleaseType>,
}

impl VoiceGeneratorBase for Gen {
    fn ended(&self) -> bool {
        self.ended
    }
    fn signal_release(&mut self, rel_type: ReleaseType) {
        self.released = Some(rel_type);
    }
}

fn voice(vel: u8) -> VoiceBase<Gen> {
    VoiceBase::new(vel, Gen { ended: false, released: None })
}

fn velocities(b: &VoiceBuffer<Gen>) -> Vec<(usize, u8, bool, bool)> {
    let mut out = Vec::new();
    for i in 0..b.voice_count() {
        let g = b.voice_at(i);
        out.push((g.id, g.voice.velocity(), g.voice.is_releasing(), g.voice.is_killed()));
    }
    out
}

fn opts(fade: bool) -> ChannelInitOptions {
    ChannelInitOptions { fade_out_killing: fade }
}

#[test]
fn push_without_limit_keeps_all_groups() {
    let mut b = VoiceBuffer::new(opts(false));
    b.push_voices(vec![voice(10), voice(20)], None);
    b.push_voices(vec![voice(30)], None);
    assert_eq!(velocities(&b), vec![(1, 10, false, false), (1, 20, false, false), (2, 30, false, false)]);
    assert_eq!(b.id_counter(), 2);
}

#[test]
fn push_over_limit_pops_quietest_group() {
    let mut b = VoiceBuffer::new(opts(false));
    b.push_voices(vec![voice(50)], Some(2));
    b.push_voices(vec![voice(20)], Some(2));
    b.push_voices(vec![voice(90)], Some(2));
    // the quietest group other than the new one (velocity 20) is removed
    assert_eq!(velocities(&b), vec![(1, 50, false, false), (3, 90, false, false)]);
}

#[test]
fn push_over_limit_with_fade_kills_quietest() {
    let mut b = VoiceBuffer::new(opts(true));
    b.push_voices(vec![voice(50)], Some(1));
    b.push_voices(vec![voice(90)], Some(1));
    assert_eq!(velocities(&b), vec![(1, 50, true, true), (2, 90, false, false)]);
    assert_eq!(b.voice_at(0).voice.generator().released, Some(ReleaseType::Kill));
}

#[test]
fn group_larger_than_limit_pops_one_group() {
    let mut b = VoiceBuffer::new(opts(false));
    b.push_voices(vec![voice(5)], Some(1));
    b.push_voices(vec![voice(60), voice(70), voice(80)], Some(1));
    assert_eq!(velocities(&b), vec![(2, 60, false, false), (2, 70, false, false), (2, 80, false, false)]);
}

#[test]
fn release_next_voice_releases_first_group() {
    let mut b = VoiceBuffer::new(opts(false));
    b.push_voices(vec![voice(40), voice(41)], None);
    b.push_voices(vec![voice(77)], None);
    assert_eq!(b.release_next_voice(), Some(40));
    assert_eq!(velocities(&b), vec![(1, 40, true, false), (1, 41, true, false), (2, 77, false, false)]);
    assert_eq!(b.release_next_voice(), Some(77));
    assert_eq!(b.release_next_voice(), None);
}

#[test]
fn damper_holds_and_releases_on_lift() {
    let mut b = VoiceBuffer::new(opts(false));
    b.push_voices(vec![voice(40)], None);
    b.set_damper(true);
    assert_eq!(b.release_next_voice(), None);
    assert_eq!(velocities(&b), vec![(1, 40, false, false)]);
    b.set_damper(false);
    assert_eq!(velocities(&b), vec![(1, 40, true, false)]);
    assert_eq!(b.voice_at(0).voice.generator().released, Some(ReleaseType::Standard));
}

#[test]
fn kill_all_without_fade_clears() {
    let mut b = VoiceBuffer::new(opts(false));
    b.push_voices(vec![voice(40), voice(50)], None);
    b.kill_all_voices();
    assert!(!b.has_voices());
    assert_eq!(b.id_counter(), 1);
}

#[test]
fn kill_all_with_fade_kills_and_resets_counter() {
    let mut b = VoiceBuffer::new(opts(true));
    b.push_voices(vec![voice(40), voice(50)], None);
    b.kill_all_voices();
    assert_eq!(velocities(&b), vec![(1, 40, true, true), (1, 50, true, true)]);
    assert_eq!(b.id_counter(), 0);
}

#[test]
fn remove_ended_voices_keeps_order() {
    let mut b = VoiceBuffer::new(opts(false));
    b.push_voices(vec![voice(1), voice(2), voice(3)], None);
    b.generator_mut(1).ended = true;
    b.remove_ended_voices();
    assert_eq!(velocities(&b), vec![(1, 1, false, false), (1, 3, false, false)]);
}

#[test]
fn first_quietest_group_goes_and_new_group_stays() {
    let mut b = VoiceBuffer::new(opts(false));
    b.push_voices(vec![voice(30)], Some(3));
    b.push_voices(vec![voice(20)], Some(3));
    b.push_voices(vec![voice(20)], Some(3));
    b.push_voices(vec![voice(90)], Some(3));
    assert_eq!(velocities(&b), vec![(1, 30, false, false), (3, 20, false, false), (4, 90, false, false)]);
    // a new group quieter than all others is still kept
    b.push_voices(vec![voice(5), voice(5)], Some(3));
    assert_eq!(velocities(&b), vec![(4, 90, false, false), (5, 5, false, false), (5, 5, false, false)]);
}

#[test]
fn release_touches_only_the_released_group() {
    let mut b = VoiceBuffer::new(opts(false));
    b.push_voices(vec![voice(40), voice(41)], None);
    b.push_voices(vec![voice(77)], None);
    b.release_next_voice();
    assert_eq!(b.voice_at(0).voice.generator().released, Some(ReleaseType::Standard));
    assert_eq!(b.voice_at(1).voice.generator().released, Some(ReleaseType::Standard));
    assert_eq!(b.voice_at(2).voice.generator().released, None);
    // a pushed group keeps its own voices, in order, after the others
    b.push_voices(vec![voice(5), voice(6)], Some(4));
    assert_eq!(velocities(&b), vec![(2, 77, false, false), (3, 5, false, false), (3, 6, false, false)]);
    assert_eq!(b.voice_at(1).voice.generator().released, None);
}
