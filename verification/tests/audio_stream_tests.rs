use xsynth::audio_stream::{AudioStreamParams, ChannelCount};

#[test]
fn channel_count_numbers() {
    assert_eq!(ChannelCount::Mono.count(), 1);
    assert_eq!(ChannelCount::Stereo.count(), 2);
}

#[test]
fn channel_count_from_number() {
    assert_eq!(ChannelCount::from_count(1), Some(ChannelCount::Mono));
    assert_eq!(ChannelCount::from_count(2), Some(ChannelCount::Stereo));
    assert_eq!(ChannelCount::from_count(0), None);
    assert_eq!(ChannelCount::from_count(3), None);
}

#[test]
fn channel_count_roundtrip() {
    for c in [ChannelCount::Mono, ChannelCount::Stereo] {
        assert_eq!(ChannelCount::from_count(c.count()), Some(c));
    }
}

#[test]
fn stream_params_new() {
    let p = AudioStreamParams::new(48000, ChannelCount::Stereo);
    assert_eq!(p.sample_rate, 48000);
    assert_eq!(p.channels, ChannelCount::Stereo);
}
