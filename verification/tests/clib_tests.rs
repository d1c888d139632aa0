use xsynth::audio_stream::{AudioStreamParams, ChannelCount};
use xsynth::clib::{
    convert_audio_event, convert_config_event, convert_envelope_curve, convert_envelope_to_rust, convert_group_options,
    convert_layers, convert_parallelism_to_rust, convert_program_value, convert_soundfont_options,
    convert_streamparams_to_c, convert_streamparams_to_rust, convert_synth_format, convert_threadcount,
    DecodedAudioEvent, XSynth_EnvelopeOptions, XSynth_GenDefault_EnvelopeOptions, XSynth_GenDefault_GroupOptions,
    XSynth_GenDefault_ParallelismOptions, XSynth_GenDefault_SoundfontOptions, XSynth_GenDefault_StreamParams,
    XSynth_ParallelismOptions, XSynth_StreamParams, XSYNTH_AUDIO_EVENT_ALLNOTESKILLED, XSYNTH_AUDIO_EVENT_ALLNOTESOFF,
    XSYNTH_AUDIO_EVENT_COARSETUNE, XSYNTH_AUDIO_EVENT_CONTROL, XSYNTH_AUDIO_EVENT_FINETUNE, XSYNTH_AUDIO_EVENT_NOTEOFF,
    XSYNTH_AUDIO_EVENT_NOTEON, XSYNTH_AUDIO_EVENT_PITCH, XSYNTH_AUDIO_EVENT_PROGRAMCHANGE,
    XSYNTH_AUDIO_EVENT_RESETCONTROL, XSYNTH_AUDIO_EVENT_SYSTEMRESET, XSYNTH_CONFIG_SETLAYERS,
    XSYNTH_CONFIG_SETPERCUSSIONMODE, XSYNTH_ENVELOPE_CURVE_EXPONENTIAL, XSYNTH_ENVELOPE_CURVE_LINEAR,
    XSYNTH_INTERPOLATION_LINEAR,
};
use xsynth::config::{ChannelInitOptions, EnvelopeCurveType, Interpolator, SynthFormat, ThreadCount};
use xsynth::events::{ChannelAudioEvent, ChannelConfigEvent, ChannelEvent, ControlEvent};

#[test]
fn defaults_of_the_c_interface() {
    assert_eq!(XSynth_GenDefault_StreamParams(), XSynth_StreamParams { sample_rate: 44100, audio_channels: 2 });
    assert_eq!(XSynth_GenDefault_ParallelismOptions(), XSynth_ParallelismOptions { channel: 0, key: 0 });
    let g = XSynth_GenDefault_GroupOptions();
    assert_eq!(g.channels, 16);
    assert!(g.fade_out_killing);
    let e = XSynth_GenDefault_EnvelopeOptions();
    assert_eq!(e.attack_curve, XSYNTH_ENVELOPE_CURVE_EXPONENTIAL);
    assert_eq!(e.decay_curve, XSYNTH_ENVELOPE_CURVE_LINEAR);
    let s = XSynth_GenDefault_SoundfontOptions();
    assert_eq!((s.bank, s.preset), (-1, -1));
    assert!(s.use_effects);
}

#[test]
fn envelope_curves() {
    assert_eq!(convert_envelope_curve(XSYNTH_ENVELOPE_CURVE_LINEAR), Ok(EnvelopeCurveType::Linear));
    assert_eq!(convert_envelope_curve(XSYNTH_ENVELOPE_CURVE_EXPONENTIAL), Ok(EnvelopeCurveType::Exponential));
    assert_eq!(convert_envelope_curve(7), Err(()));
    let ok = convert_envelope_to_rust(XSynth_GenDefault_EnvelopeOptions()).unwrap();
    assert_eq!(ok.attack_curve, EnvelopeCurveType::Exponential);
    assert_eq!(ok.release_curve, EnvelopeCurveType::Linear);
    let bad = XSynth_EnvelopeOptions { attack_curve: 0, decay_curve: 9, release_curve: 0 };
    assert_eq!(convert_envelope_to_rust(bad), Err(()));
}

#[test]
fn stream_params_both_ways() {
    let p = convert_streamparams_to_rust(XSynth_StreamParams { sample_rate: 48000, audio_channels: 1 });
    assert_eq!(p, AudioStreamParams::new(48000, ChannelCount::Mono));
    assert_eq!(convert_streamparams_to_c(&p), XSynth_StreamParams { sample_rate: 48000, audio_channels: 1 });
    let s = XSynth_StreamParams { sample_rate: 96000, audio_channels: 2 };
    assert_eq!(convert_streamparams_to_c(&convert_streamparams_to_rust(s)), s);
}

#[test]
fn thread_counts() {
    assert_eq!(convert_threadcount(-5), ThreadCount::Single);
    assert_eq!(convert_threadcount(-1), ThreadCount::Single);
    assert_eq!(convert_threadcount(0), ThreadCount::Auto);
    assert_eq!(convert_threadcount(6), ThreadCount::Manual(6));
    let p = convert_parallelism_to_rust(XSynth_ParallelismOptions { channel: -1, key: 3 });
    assert_eq!(p.channel, ThreadCount::Single);
    assert_eq!(p.key, ThreadCount::Manual(3));
}

#[test]
fn audio_events_decode() {
    assert_eq!(
        convert_audio_event(XSYNTH_AUDIO_EVENT_NOTEON, 60 | (100 << 8)),
        Ok(DecodedAudioEvent::Audio(ChannelAudioEvent::NoteOn { key: 60, vel: 100 }))
    );
    assert_eq!(
        convert_audio_event(XSYNTH_AUDIO_EVENT_NOTEOFF, 61 | (5 << 8)),
        Ok(DecodedAudioEvent::Audio(ChannelAudioEvent::NoteOff { key: 61 }))
    );
    assert_eq!(convert_audio_event(XSYNTH_AUDIO_EVENT_ALLNOTESOFF, 0), Ok(DecodedAudioEvent::Audio(ChannelAudioEvent::AllNotesOff)));
    assert_eq!(
        convert_audio_event(XSYNTH_AUDIO_EVENT_ALLNOTESKILLED, 0),
        Ok(DecodedAudioEvent::Audio(ChannelAudioEvent::AllNotesKilled))
    );
    assert_eq!(
        convert_audio_event(XSYNTH_AUDIO_EVENT_RESETCONTROL, 0),
        Ok(DecodedAudioEvent::Audio(ChannelAudioEvent::ResetControl))
    );
    assert_eq!(
        convert_audio_event(XSYNTH_AUDIO_EVENT_SYSTEMRESET, 0),
        Ok(DecodedAudioEvent::Audio(ChannelAudioEvent::SystemReset))
    );
    assert_eq!(
        convert_audio_event(XSYNTH_AUDIO_EVENT_PROGRAMCHANGE, 200),
        Ok(DecodedAudioEvent::Audio(ChannelAudioEvent::ProgramChange(127)))
    );
    assert_eq!(
        convert_audio_event(XSYNTH_AUDIO_EVENT_CONTROL, 7 | (255 << 8)),
        Ok(DecodedAudioEvent::Audio(ChannelAudioEvent::Control(ControlEvent::Raw(7, 127))))
    );
    assert_eq!(convert_audio_event(XSYNTH_AUDIO_EVENT_PITCH, 20000), Ok(DecodedAudioEvent::PitchBendValue(16384)));
    assert_eq!(convert_audio_event(XSYNTH_AUDIO_EVENT_PITCH, 8192), Ok(DecodedAudioEvent::PitchBendValue(8192)));
    assert_eq!(convert_audio_event(XSYNTH_AUDIO_EVENT_FINETUNE, 9000), Ok(DecodedAudioEvent::FineTune(8192)));
    assert_eq!(convert_audio_event(XSYNTH_AUDIO_EVENT_COARSETUNE, 70), Ok(DecodedAudioEvent::CoarseTune(70)));
    assert_eq!(convert_audio_event(XSYNTH_AUDIO_EVENT_COARSETUNE, 300), Ok(DecodedAudioEvent::CoarseTune(128)));
    assert_eq!(convert_audio_event(99, 0), Err(()));
}

#[test]
fn config_events_decode() {
    match convert_config_event::<()>(XSYNTH_CONFIG_SETLAYERS, 0) {
        Ok(ChannelEvent::Config(ChannelConfigEvent::SetLayerCount(l))) => assert_eq!(l, None),
        _ => panic!("expected a layer count"),
    }
    match convert_config_event::<()>(XSYNTH_CONFIG_SETLAYERS, 12) {
        Ok(ChannelEvent::Config(ChannelConfigEvent::SetLayerCount(l))) => assert_eq!(l, Some(12)),
        _ => panic!("expected a layer count"),
    }
    match convert_config_event::<()>(XSYNTH_CONFIG_SETPERCUSSIONMODE, 1) {
        Ok(ChannelEvent::Config(ChannelConfigEvent::SetPercussionMode(b))) => assert!(b),
        _ => panic!("expected percussion mode"),
    }
    match convert_config_event::<()>(XSYNTH_CONFIG_SETPERCUSSIONMODE, 2) {
        Ok(ChannelEvent::Config(ChannelConfigEvent::SetPercussionMode(b))) => assert!(!b),
        _ => panic!("expected percussion mode"),
    }
    assert!(convert_config_event::<()>(5, 1).is_err());
}

#[test]
fn small_conversions() {
    assert_eq!(convert_layers(0), None);
    assert_eq!(convert_layers(4), Some(4));
    assert_eq!(convert_synth_format(16), SynthFormat::MidiSingle);
    assert_eq!(convert_synth_format(32), SynthFormat::Custom { channels: 32 });
    assert_eq!(convert_program_value(-1), None);
    assert_eq!(convert_program_value(5), Some(5));
}

#[test]
fn soundfont_options_are_limited() {
    let mut o = XSynth_GenDefault_SoundfontOptions();
    let r = convert_soundfont_options(&o);
    assert_eq!(r.bank, None);
    assert_eq!(r.preset, None);
    assert_eq!(r.interpolator, Interpolator::Nearest);
    o.bank = 300;
    o.preset = 200;
    o.interpolator = XSYNTH_INTERPOLATION_LINEAR;
    o.use_effects = false;
    let r = convert_soundfont_options(&o);
    assert_eq!(r.bank, Some(128));
    assert_eq!(r.preset, Some(127));
    assert_eq!(r.interpolator, Interpolator::Linear);
    assert!(!r.use_effects);
    o.bank = -7;
    assert_eq!(convert_soundfont_options(&o).bank, None);
}

#[test]
fn group_options_convert() {
    let c = convert_group_options(&XSynth_GenDefault_GroupOptions());
    assert_eq!(c.format, SynthFormat::MidiSingle);
    assert_eq!(c.channel_init_options, ChannelInitOptions { fade_out_killing: true });
    assert_eq!(c.audio_params, AudioStreamParams::new(44100, ChannelCount::Stereo));
    assert_eq!(c.parallelism.channel, ThreadCount::Auto);
}
