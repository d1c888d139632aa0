use vstd::prelude::*;

use crate::audio_stream::AudioStreamParams;
use crate::channel_sf::ProgramDescriptor;
use crate::config::ChannelInitOptions;
use crate::control::{raw_control, ControlAction, ControlEventData};
use crate::events::{ChannelAudioEvent, ChannelConfigEvent, ChannelEvent, ControlEvent, KeyNoteEvent};
use crate::helpers::arc_clone;
use crate::channel_sf::{chosen_release, first_release_from};
use crate::soundfont::{SampleSoundfont, SampleVoiceFactory};
use crate::key::{damper_step, key_events_applied, Key, KeyData};
use crate::params::{effective_program, selected_bank, selected_preset, VoiceChannelParams, VoiceChannelStatsReader};
use crate::voice::VoiceSpawner;
use crate::soundfont::SoundfontBase;
use crate::voice::{VoiceControlData, VoiceGeneratorBase, PITCH_MULTIPLIER_ONE};

verus! {

/// Every key's event list, with `e` added at the end of each.
pub open spec fn all_pushed(o: Seq<Seq<KeyNoteEvent>>, n: Seq<Seq<KeyNoteEvent>>, e: KeyNoteEvent) -> bool {
    &&& n.len() == o.len()
    &&& forall|k: int| 0 <= k < o.len() ==> #[trigger] n[k] == o[k].push(e)
}

/// Key `key`'s event list with `e` added at its end, the others unchanged.
pub open spec fn one_pushed(o: Seq<Seq<KeyNoteEvent>>, n: Seq<Seq<KeyNoteEvent>>, key: int, e: KeyNoteEvent) -> bool {
    &&& n.len() == o.len()
    &&& n[key] == o[key].push(e)
    &&& forall|k: int| 0 <= k < o.len() && k != key ==> #[trigger] n[k] == o[k]
}

/// Every key had its damper set to `damper`.
pub open spec fn all_damped<T: VoiceGeneratorBase>(o: Seq<KeyData<T>>, n: Seq<KeyData<T>>, damper: bool) -> bool {
    &&& n.len() == o.len()
    &&& forall|k: int| 0 <= k < o.len() ==> #[trigger] damper_step(o[k], n[k], damper)
}

/// Whether a list of note events holds an all-notes-off.
pub open spec fn has_all_off(events: Seq<KeyNoteEvent>) -> bool {
    exists|i: int| 0 <= i < events.len() && #[trigger] events[i] is AllOff
}

/// Whether no note-off of key `key` starts any voice, whatever its velocity.
pub open spec fn releases_silent<SF: SoundfontBase>(sfs: Seq<std::sync::Arc<SF>>, prog: ProgramDescriptor, key: u8) -> bool {
    forall|v: u8| v < 128 ==> #[trigger] chosen_release(sfs, prog, key, v).len() == 0
}

/// A MIDI channel: the voices of its 128 keys with the note events waiting
/// for the next render, its soundfonts and program, and the state of its
/// controllers. The floating-point side of the controllers (volume, pan,
/// expression, pitch, filter) is applied outside the core, from the
/// actions that control events return.
pub struct VoiceChannel<SF: SoundfontBase, T> {
    key_voices: Vec<Key<T>>,
    params: VoiceChannelParams<SF>,
    stream_params: AudioStreamParams,
    control_event_data: ControlEventData,
    voice_control_data: VoiceControlData,
}

/// Adds `e` at the end of key `k`'s event list.
fn push_key_event<T>(keys: &mut Vec<Key<T>>, k: usize, e: KeyNoteEvent)
    requires
        k < old(keys)@.len(),
    ensures
        final(keys)@.len() == old(keys)@.len(),
        final(keys)@[k as int].data == old(keys)@[k as int].data,
        final(keys)@[k as int].event_cache@ == old(keys)@[k as int].event_cache@.push(e),
        forall|j: int| 0 <= j < old(keys)@.len() && j != k ==> #[trigger] final(keys)@[j] == old(keys)@[j],
{
    let key = &mut keys[k];
    key.event_cache.push(e);
}

/// Adds `e` at the end of every key's event list.
fn push_all_keys<T>(keys: &mut Vec<Key<T>>, e: KeyNoteEvent)
    ensures
        final(keys)@.len() == old(keys)@.len(),
        forall|j: int|
            0 <= j < old(keys)@.len() ==> {
                &&& (#[trigger] final(keys)@[j]).data == old(keys)@[j].data
                &&& final(keys)@[j].event_cache@ == old(keys)@[j].event_cache@.push(e)
            },
{
    let n = keys.len();
    let mut k: usize = 0;
    while k < n
        invariant
            n == old(keys)@.len(),
            keys@.len() == n,
            0 <= k <= n,
            forall|j: int|
                0 <= j < k ==> {
                    &&& (#[trigger] keys@[j]).data == old(keys)@[j].data
                    &&& keys@[j].event_cache@ == old(keys)@[j].event_cache@.push(e)
                },
            forall|j: int| k <= j < n ==> #[trigger] keys@[j] == old(keys)@[j],
        decreases n - k,
    {
        push_key_event(keys, k, e);
        k = k + 1;
    }
}

/// Sets the damper of every key.
fn set_damper_all<T: VoiceGeneratorBase>(keys: &mut Vec<Key<T>>, damper: bool)
    requires
        forall|j: int| 0 <= j < old(keys)@.len() ==> (#[trigger] old(keys)@[j]).data.wf(),
    ensures
        final(keys)@.len() == old(keys)@.len(),
        forall|j: int|
            0 <= j < old(keys)@.len() ==> {
                &&& (#[trigger] final(keys)@[j]).data.wf()
                &&& damper_step(old(keys)@[j].data, final(keys)@[j].data, damper)
                &&& final(keys)@[j].event_cache == old(keys)@[j].event_cache
            },
{
    let n = keys.len();
    let mut k: usize = 0;
    while k < n
        invariant
            n == old(keys)@.len(),
            keys@.len() == n,
            0 <= k <= n,
            forall|j: int|
                0 <= j < k ==> {
                    &&& (#[trigger] keys@[j]).data.wf()
                    &&& damper_step(old(keys)@[j].data, keys@[j].data, damper)
                    &&& keys@[j].event_cache == old(keys)@[j].event_cache
                },
            forall|j: int| k <= j < n ==> #[trigger] keys@[j] == old(keys)@[j],
            forall|j: int| 0 <= j < n ==> (#[trigger] old(keys)@[j]).data.wf(),
        decreases n - k,
    {
        let key = &mut keys[k];
        key.data.set_damper(damper);
        k = k + 1;
    }
}

impl<SF: SoundfontBase, T: VoiceGeneratorBase> VoiceChannel<SF, T> {
    /// The keys, key 0 first.
    pub closed spec fn keys(&self) -> Seq<Key<T>> {
        self.key_voices@
    }

    /// The note events waiting at each key.
    pub closed spec fn caches(&self) -> Seq<Seq<KeyNoteEvent>> {
        self.key_voices@.map_values(|k: Key<T>| k.event_cache@)
    }

    /// The voices of each key.
    pub closed spec fn datas(&self) -> Seq<KeyData<T>> {
        self.key_voices@.map_values(|k: Key<T>| k.data)
    }

    pub closed spec fn spec_params(&self) -> VoiceChannelParams<SF> {
        self.params
    }

    /// The registered-parameter state of the controllers.
    pub closed spec fn control_data(&self) -> ControlEventData {
        self.control_event_data
    }

    /// What the controllers ask of every voice.
    pub closed spec fn voice_control(&self) -> VoiceControlData {
        self.voice_control_data
    }

    pub closed spec fn spec_stream_params(&self) -> AudioStreamParams {
        self.stream_params
    }

    /// 128 consistent keys, key `k` at position `k`, all sharing the
    /// channel's voice counter, and consistent soundfonts.
    pub closed spec fn wf(&self) -> bool {
        &&& self.key_voices@.len() == 128
        &&& forall|k: int|
            0 <= k < 128 ==> {
                &&& (#[trigger] self.key_voices@[k]).data.wf()
                &&& self.key_voices@[k].data.spec_key() == k
                &&& self.key_voices@[k].data.counter() == self.params.stats.voice_counter
            }
        &&& self.params.channel_sf.wf()
    }

    /// A consistent channel has one key, one event list and one voice
    /// list for each of the 128 MIDI keys, key `k` at position `k`.
    pub proof fn lemma_wf_keys(&self)
        requires
            self.wf(),
        ensures
            self.keys().len() == 128,
            self.caches().len() == 128,
            self.datas().len() == 128,
            forall|k: int| 0 <= k < 128 ==> (#[trigger] self.datas()[k]).spec_key() == k,
    {
        assert forall|k: int| 0 <= k < 128 implies (#[trigger] self.datas()[k]).spec_key() == k by {
            assert(self.datas()[k] == self.key_voices@[k].data);
        }
    }

    /// A channel with no voices, no waiting events, no soundfonts, program
    /// (0, 0), 4 layers and the controllers at their defaults.
    pub fn new(options: ChannelInitOptions, stream_params: AudioStreamParams) -> (r: Self)
        ensures
            r.wf(),
            forall|k: int| 0 <= k < 128 ==> (#[trigger] r.caches()[k]) == Seq::<KeyNoteEvent>::empty(),
            forall|k: int|
                0 <= k < 128 ==> {
                    &&& (#[trigger] r.datas()[k]).buffer()@.len() == 0
                    &&& r.datas()[k].buffer().spec_options() == options
                    &&& !r.datas()[k].buffer().spec_damper_held()
                },
            r.spec_params().layers == Some(4usize),
            r.spec_params().program == (ProgramDescriptor { bank: 0, preset: 0 }),
            !r.spec_params().percussion,
            r.spec_params().channel_sf.soundfonts().len() == 0,
            r.control_data() == ControlEventData::spec_defaults(),
            r.voice_control().voice_pitch_multiplier == PITCH_MULTIPLIER_ONE,
            r.voice_control().envelope.attack is None,
            r.voice_control().envelope.release is None,
            r.spec_stream_params() == stream_params,
    {
        let params = VoiceChannelParams::new(stream_params);
        let mut key_voices: Vec<Key<T>> = Vec::new();
        let mut i: u8 = 0;
        while i < 128
            invariant
                0 <= i <= 128,
                key_voices@.len() == i,
                forall|k: int|
                    0 <= k < i ==> {
                        &&& (#[trigger] key_voices@[k]).data.wf()
                        &&& key_voices@[k].data.spec_key() == k
                        &&& key_voices@[k].data.counter() == params.stats.voice_counter
                        &&& key_voices@[k].event_cache@ == Seq::<KeyNoteEvent>::empty()
                        &&& key_voices@[k].data.buffer()@.len() == 0
                        &&& key_voices@[k].data.buffer().spec_options() == options
                        &&& !key_voices@[k].data.buffer().spec_damper_held()
                    },
            decreases 128 - i,
        {
            let counter = arc_clone(&params.stats.voice_counter);
            key_voices.push(Key::new(i, counter, options));
            i = i + 1;
        }
        VoiceChannel {
            key_voices,
            params,
            stream_params,
            control_event_data: ControlEventData::new_defaults(),
            voice_control_data: VoiceControlData::new_defaults(),
        }
    }

    /// After every key's damper was set, the channel is still consistent and
    /// the keys changed by `damper_step`.
    proof fn lemma_damped(o: Self, n: Self, damper: bool)
        requires
            o.wf(),
            n.key_voices@.len() == o.key_voices@.len(),
            forall|j: int|
                0 <= j < o.key_voices@.len() ==> {
                    &&& (#[trigger] n.key_voices@[j]).data.wf()
                    &&& damper_step(o.key_voices@[j].data, n.key_voices@[j].data, damper)
                    &&& n.key_voices@[j].event_cache == o.key_voices@[j].event_cache
                },
            n.params.stats == o.params.stats,
            n.params.channel_sf == o.params.channel_sf,
        ensures
            n.wf(),
            n.caches() == o.caches(),
            all_damped(o.datas(), n.datas(), damper),
    {
        assert(n.caches() =~= o.caches());
        assert forall|k: int| 0 <= k < 128 implies {
            &&& (#[trigger] n.key_voices@[k]).data.wf()
            &&& n.key_voices@[k].data.spec_key() == k
            &&& n.key_voices@[k].data.counter() == n.params.stats.voice_counter
        } by {
            assert(damper_step(o.key_voices@[k].data, n.key_voices@[k].data, damper));
        }
        assert forall|k: int| 0 <= k < o.datas().len() implies #[trigger] damper_step(o.datas()[k], n.datas()[k], damper) by {
            assert(o.datas()[k] == o.key_voices@[k].data);
            assert(n.datas()[k] == n.key_voices@[k].data);
        }
    }

    /// After an event was added to every key's list, the channel is still
    /// consistent and only the lists changed.
    proof fn lemma_all_pushed(o: Self, n: Self, e: KeyNoteEvent)
        requires
            o.wf(),
            n.key_voices@.len() == o.key_voices@.len(),
            forall|j: int|
                0 <= j < o.key_voices@.len() ==> {
                    &&& (#[trigger] n.key_voices@[j]).data == o.key_voices@[j].data
                    &&& n.key_voices@[j].event_cache@ == o.key_voices@[j].event_cache@.push(e)
                },
            n.params == o.params,
        ensures
            n.wf(),
            n.datas() == o.datas(),
            all_pushed(o.caches(), n.caches(), e),
    {
        assert(n.datas() =~= o.datas());
        assert forall|k: int| 0 <= k < 128 implies {
            &&& (#[trigger] n.key_voices@[k]).data.wf()
            &&& n.key_voices@[k].data.spec_key() == k
            &&& n.key_voices@[k].data.counter() == n.params.stats.voice_counter
        } by {
            assert(n.key_voices@[k].data == o.key_voices@[k].data);
        }
        assert forall|k: int| 0 <= k < o.caches().len() implies #[trigger] n.caches()[k] == o.caches()[k].push(e) by {
            assert(n.caches()[k] == n.key_voices@[k].event_cache@);
        }
    }

    /// The channel statistics, shared with the keys.
    pub fn get_channel_stats(&self) -> (r: VoiceChannelStatsReader)
        ensures
            r.stats().voice_counter == self.spec_params().stats.voice_counter,
    {
        let stats = self.params.stats.clone();
        VoiceChannelStatsReader::new(stats)
    }

    /// The parameters of the audio stream the channel renders.
    pub fn stream_params(&self) -> (r: AudioStreamParams)
        ensures
            r == self.spec_stream_params(),
    {
        self.stream_params
    }

    /// What the controllers ask of every voice.
    pub fn voice_control_data(&self) -> (r: VoiceControlData)
        ensures
            r == self.voice_control(),
    {
        self.voice_control_data
    }

    /// The voices of key `k`.
    pub fn key(&self, k: usize) -> (r: &KeyData<T>)
        requires
            self.wf(),
            k < 128,
        ensures
            *r == self.datas()[k as int],
    {
        proof {
            assert(self.datas()[k as int] == self.key_voices@[k as int].data);
        }
        &self.key_voices[k].data
    }

    /// The note events waiting at key `k`.
    pub fn key_events(&self, k: usize) -> (r: &Vec<KeyNoteEvent>)
        requires
            self.wf(),
            k < 128,
        ensures
            r@ == self.caches()[k as int],
    {
        proof {
            assert(self.caches()[k as int] == self.key_voices@[k as int].event_cache@);
        }
        &self.key_voices[k].event_cache
    }

    /// The channel's parameters.
    pub fn params(&self) -> (r: &VoiceChannelParams<SF>)
        ensures
            *r == self.spec_params(),
    {
        &self.params
    }

    /// The registered-parameter state of the controllers.
    pub fn control_event_data(&self) -> (r: ControlEventData)
        ensures
            r == self.control_data(),
    {
        self.control_event_data
    }

    /// Sets the pitch multiplier asked of every voice (the bit pattern of
    /// an `f32`, computed from pitch bend and tuning outside the core).
    pub fn set_voice_pitch_multiplier(&mut self, bits: u32)
        requires
            old(self).wf(),
        ensures
            final(self).wf(),
            final(self).voice_control() == (VoiceControlData { voice_pitch_multiplier: bits, ..old(self).voice_control() }),
            final(self).caches() == old(self).caches(),
            final(self).datas() == old(self).datas(),
            final(self).spec_params() == old(self).spec_params(),
            final(self).control_data() == old(self).control_data(),
            final(self).spec_stream_params() == old(self).spec_stream_params(),
    {
        self.voice_control_data.voice_pitch_multiplier = bits;
    }

    /// Write access to the voices of key `k`, to render them. The channel
    /// stays consistent if the key does (the key's methods keep it so).
    pub fn key_mut(&mut self, k: usize) -> (r: &mut KeyData<T>)
        requires
            old(self).wf(),
            k < 128,
        ensures
            *r == old(self).datas()[k as int],
            final(self).datas() == old(self).datas().update(k as int, *final(r)),
            final(self).caches() == old(self).caches(),
            final(self).spec_params() == old(self).spec_params(),
            final(self).control_data() == old(self).control_data(),
            final(self).voice_control() == old(self).voice_control(),
            final(self).spec_stream_params() == old(self).spec_stream_params(),
            ({
                let f = *final(r);
                let o = old(self).datas()[k as int];
                (f.wf() && f.spec_key() == o.spec_key() && f.counter() == o.counter()) ==> final(self).wf()
            }),
    {
        proof {
            assert(self.datas()[k as int] == self.key_voices@[k as int].data);
        }
        let r = &mut self.key_voices[k].data;
        r
    }

    /// Write access to all keys at once, to render them side by side. The
    /// channel stays consistent if every key does and keeps its number and
    /// the channel's voice counter.
    pub fn keys_mut(&mut self) -> (r: &mut [Key<T>])
        requires
            old(self).wf(),
        ensures
            r@ == old(self).keys(),
            final(self).keys() == final(r)@,
            final(self).datas() == final(r)@.map_values(|k: Key<T>| k.data),
            final(self).caches() == final(r)@.map_values(|k: Key<T>| k.event_cache@),
            final(self).spec_params() == old(self).spec_params(),
            final(self).control_data() == old(self).control_data(),
            final(self).voice_control() == old(self).voice_control(),
            final(self).spec_stream_params() == old(self).spec_stream_params(),
            final(r)@.len() == 128 && (forall|k: int|
                0 <= k < 128 ==> {
                    let f = (#[trigger] final(r)@[k]).data;
                    let o = old(self).keys()[k].data;
                    f.wf() && f.spec_key() == o.spec_key() && f.counter() == o.counter()
                }) ==> final(self).wf(),
    {
        self.key_voices.as_mut_slice()
    }

    /// Resets all controllers: the registered parameters, the envelope
    /// modifications and the pitch return to their defaults, program change
    /// to preset 0, and every key's damper is lifted.
    pub fn reset_control(&mut self)
        requires
            old(self).wf(),
        ensures
            final(self).wf(),
            reset_step(*old(self), *final(self)),
    {
        self.control_event_data = ControlEventData::new_defaults();
        self.voice_control_data = VoiceControlData::new_defaults();
        self.params.set_preset(0);
        let ghost mid = *self;
        set_damper_all(&mut self.key_voices, false);
        proof {
            Self::lemma_damped(mid, *self, false);
            assert(mid.caches() == old(self).caches());
            assert(mid.datas() == old(self).datas());
        }
    }

    /// Plays the note events waiting at every key, in order, after loading
    /// the selected program (or the percussion program) into the
    /// soundfonts; the lists are then empty. This is the step of a render
    /// that comes before the voices produce audio.
    pub fn flush_key_events<S: VoiceSpawner<Generator = T>>(&mut self) where SF: SoundfontBase<Spawner = S>
        requires
            old(self).wf(),
            forall|k: int, i: int|
                0 <= k < 128 && 0 <= i < old(self).caches()[k].len() ==> (#[trigger] old(self).caches()[k][i] matches KeyNoteEvent::On(
                    v,
                ) ==> v < 128),
            forall|k: int|
                0 <= k < 128 && #[trigger] has_all_off(old(self).caches()[k]) ==> releases_silent(
                    old(self).spec_params().channel_sf.soundfonts(),
                    effective_program(old(self).spec_params().program, old(self).spec_params().percussion),
                    k as u8,
                ),
        ensures
            final(self).wf(),
            final(self).spec_params().channel_sf.program() == effective_program(
                old(self).spec_params().program,
                old(self).spec_params().percussion,
            ),
            final(self).spec_params().channel_sf.soundfonts() == old(self).spec_params().channel_sf.soundfonts(),
            final(self).spec_params().program == old(self).spec_params().program,
            final(self).spec_params().percussion == old(self).spec_params().percussion,
            final(self).spec_params().layers == old(self).spec_params().layers,
            final(self).control_data() == old(self).control_data(),
            final(self).voice_control() == old(self).voice_control(),
            final(self).spec_stream_params() == old(self).spec_stream_params(),
            final(self).caches().len() == 128,
            forall|k: int| 0 <= k < 128 ==> (#[trigger] final(self).caches()[k]).len() == 0,
            forall|k: int|
                0 <= k < 128 ==> #[trigger] key_events_applied(
                    old(self).datas()[k],
                    final(self).datas()[k],
                    old(self).caches()[k],
                    old(self).spec_params().channel_sf.soundfonts(),
                    effective_program(old(self).spec_params().program, old(self).spec_params().percussion),
                    old(self).spec_params().layers,
                ),
    {
        self.params.load_program();
        let layers = self.params.layers;
        let control = self.voice_control_data;
        let ghost o = *old(self);
        let mut k: usize = 0;
        while k < 128
            invariant
                0 <= k <= 128,
                self.key_voices@.len() == 128,
                self.params.channel_sf.wf(),
                self.params.channel_sf.program() == effective_program(o.params.program, o.params.percussion),
                self.params.channel_sf.soundfonts() == o.params.channel_sf.soundfonts(),
                self.params.program == o.params.program,
                self.params.percussion == o.params.percussion,
                self.params.layers == o.params.layers,
                self.params.stats == o.params.stats,
                layers == o.params.layers,
                self.control_event_data == o.control_event_data,
                self.voice_control_data == o.voice_control_data,
                control == o.voice_control_data,
                self.stream_params == o.stream_params,
                o.wf(),
                forall|j: int|
                    0 <= j < k ==> {
                        &&& (#[trigger] self.key_voices@[j]).data.wf()
                        &&& self.key_voices@[j].data.spec_key() == j
                        &&& self.key_voices@[j].data.counter() == o.params.stats.voice_counter
                        &&& self.key_voices@[j].event_cache@.len() == 0
                        &&& key_events_applied(
                            o.key_voices@[j].data,
                            self.key_voices@[j].data,
                            o.key_voices@[j].event_cache@,
                            o.params.channel_sf.soundfonts(),
                            effective_program(o.params.program, o.params.percussion),
                            o.params.layers,
                        )
                    },
                forall|j: int| k <= j < 128 ==> #[trigger] self.key_voices@[j] == o.key_voices@[j],
                forall|kk: int, i: int|
                    0 <= kk < 128 && 0 <= i < o.caches()[kk].len() ==> (#[trigger] o.caches()[kk][i] matches KeyNoteEvent::On(
                        v,
                    ) ==> v < 128),
                forall|kk: int|
                    0 <= kk < 128 && #[trigger] has_all_off(o.caches()[kk]) ==> releases_silent(
                        o.params.channel_sf.soundfonts(),
                        effective_program(o.params.program, o.params.percussion),
                        kk as u8,
                    ),
            decreases 128 - k,
        {
            let ghost before = self.key_voices@;
            let key = &mut self.key_voices[k];
            let mut events: Vec<KeyNoteEvent> = Vec::new();
            std::mem::swap(&mut events, &mut key.event_cache);
            proof {
                assert(events@ == o.key_voices@[k as int].event_cache@);
                assert(o.caches()[k as int] == events@);
                assert forall|i: int| 0 <= i < events@.len() implies (#[trigger] events@[i] matches KeyNoteEvent::On(v) ==> v < 128) by {
                    assert(o.caches()[k as int][i] == events@[i]);
                }
                if exists|i: int| 0 <= i < events@.len() && #[trigger] events@[i] is AllOff {
                    assert(has_all_off(o.caches()[k as int]));
                }
            }
            key.data.send_events(&events, &control, &self.params.channel_sf, layers);
            proof {
                assert forall|j: int| k < j < 128 implies #[trigger] self.key_voices@[j] == o.key_voices@[j] by {
                    assert(self.key_voices@[j] == before[j]);
                }
            }
            k = k + 1;
        }
        proof {
            assert forall|kk: int| 0 <= kk < 128 implies (#[trigger] self.caches()[kk]).len() == 0 by {
                assert(self.caches()[kk] == self.key_voices@[kk].event_cache@);
            }
            assert forall|kk: int| 0 <= kk < 128 implies #[trigger] key_events_applied(
                o.datas()[kk],
                self.datas()[kk],
                o.caches()[kk],
                o.spec_params().channel_sf.soundfonts(),
                effective_program(o.spec_params().program, o.spec_params().percussion),
                o.spec_params().layers,
            ) by {
                assert(o.datas()[kk] == o.key_voices@[kk].data);
                assert(self.datas()[kk] == self.key_voices@[kk].data);
                assert(o.caches()[kk] == o.key_voices@[kk].event_cache@);
            }
        }
    }

    /// After an event was added to key `k`'s list, the channel is still
    /// consistent and only that list changed.
    proof fn lemma_one_pushed(o: Self, n: Self, k: int, e: KeyNoteEvent)
        requires
            o.wf(),
            0 <= k < 128,
            n.key_voices@.len() == o.key_voices@.len(),
            n.key_voices@[k].data == o.key_voices@[k].data,
            n.key_voices@[k].event_cache@ == o.key_voices@[k].event_cache@.push(e),
            forall|j: int| 0 <= j < o.key_voices@.len() && j != k ==> #[trigger] n.key_voices@[j] == o.key_voices@[j],
            n.params == o.params,
        ensures
            n.wf(),
            n.datas() == o.datas(),
            one_pushed(o.caches(), n.caches(), k, e),
    {
        assert(n.datas() =~= o.datas());
        assert forall|j: int| 0 <= j < 128 implies {
            &&& (#[trigger] n.key_voices@[j]).data.wf()
            &&& n.key_voices@[j].data.spec_key() == j
            &&& n.key_voices@[j].data.counter() == n.params.stats.voice_counter
        } by {
            assert(n.key_voices@[j].data == o.key_voices@[j].data);
        }
        assert(n.caches()[k] == n.key_voices@[k].event_cache@);
        assert forall|j: int| 0 <= j < o.caches().len() && j != k implies #[trigger] n.caches()[j] == o.caches()[j] by {
            assert(n.caches()[j] == n.key_voices@[j].event_cache@);
        }
    }

    /// Sends an event to the channel. Note events wait at their key (a key
    /// above 127 is ignored) until the next render; all-notes-off and
    /// all-notes-killed go to every key; a program change selects the
    /// preset; configuration events go to the parameters. A control event
    /// is processed as `process_control_event` does, and a controller reset
    /// returns `ResetControl`; the returned action is what is left for the
    /// floating-point side.
    pub fn process_event(&mut self, event: ChannelEvent<SF>) -> (r: ControlAction)
        requires
            old(self).wf(),
        ensures
            final(self).wf(),
            event_step(*old(self), *final(self), event, r),
    {
        match event {
            ChannelEvent::Audio(audio) => match audio {
                ChannelAudioEvent::NoteOn { key, vel } => {
                    if key < 128 {
                        let ghost mid = *self;
                        push_key_event(&mut self.key_voices, key as usize, KeyNoteEvent::On(vel));
                        proof {
                            Self::lemma_one_pushed(mid, *self, key as int, KeyNoteEvent::On(vel));
                        }
                    }
                    ControlAction::Nothing
                },
                ChannelAudioEvent::NoteOff { key } => {
                    if key < 128 {
                        let ghost mid = *self;
                        push_key_event(&mut self.key_voices, key as usize, KeyNoteEvent::Off);
                        proof {
                            Self::lemma_one_pushed(mid, *self, key as int, KeyNoteEvent::Off);
                        }
                    }
                    ControlAction::Nothing
                },
                ChannelAudioEvent::AllNotesOff => {
                    let ghost mid = *self;
                    push_all_keys(&mut self.key_voices, KeyNoteEvent::AllOff);
                    proof {
                        Self::lemma_all_pushed(mid, *self, KeyNoteEvent::AllOff);
                    }
                    ControlAction::Nothing
                },
                ChannelAudioEvent::AllNotesKilled => {
                    let ghost mid = *self;
                    push_all_keys(&mut self.key_voices, KeyNoteEvent::AllKilled);
                    proof {
                        Self::lemma_all_pushed(mid, *self, KeyNoteEvent::AllKilled);
                    }
                    ControlAction::Nothing
                },
                ChannelAudioEvent::ResetControl => {
                    self.reset_control();
                    ControlAction::ResetControl
                },
                ChannelAudioEvent::Control(control) => self.process_control_event(control),
                ChannelAudioEvent::ProgramChange(preset) => {
                    self.params.set_preset(preset);
                    ControlAction::Nothing
                },
                ChannelAudioEvent::SystemReset => {
                    self.reset_control();
                    self.params.set_bank(0);
                    ControlAction::ResetControl
                },
            },
            ChannelEvent::Config(config) => {
                self.params.process_config_event(config);
                ControlAction::Nothing
            },
        }
    }

    /// Sends a control event to the channel. A raw control change updates
    /// the registered-parameter state and applies what it asks that the
    /// core holds (bank select, damper, attack and release modifications,
    /// all notes off or killed, reset); the action is returned so that the
    /// floating-point side (volume, pan, expression, pitch, filter) can be
    /// applied. The other control events only concern that side: nothing
    /// changes and the event is returned as `Floating`.
    pub fn process_control_event(&mut self, event: ControlEvent) -> (r: ControlAction)
        requires
            old(self).wf(),
        ensures
            final(self).wf(),
            match event {
                ControlEvent::Raw(controller, value) => control_step(*old(self), *final(self), controller, value, r),
                _ => r == ControlAction::Floating(event) && *final(self) == *old(self),
            },
    {
        match event {
            ControlEvent::Raw(controller, value) => {
                let action = self.control_event_data.process_raw(controller, value);
                match action {
                    ControlAction::SetBank(bank) => {
                        self.params.set_bank(bank);
                    },
                    ControlAction::Damper(damper) => {
                        let ghost mid = *self;
                        set_damper_all(&mut self.key_voices, damper);
                        proof {
                            Self::lemma_damped(mid, *self, damper);
                        }
                    },
                    ControlAction::ReleaseTime(v) => {
                        self.voice_control_data.envelope.release = Some(v);
                    },
                    ControlAction::AttackTime(v) => {
                        self.voice_control_data.envelope.attack = Some(v);
                    },
                    ControlAction::AllNotesKilled => {
                        let ghost mid = *self;
                        push_all_keys(&mut self.key_voices, KeyNoteEvent::AllKilled);
                        proof {
                            Self::lemma_all_pushed(mid, *self, KeyNoteEvent::AllKilled);
                        }
                    },
                    ControlAction::AllNotesOff => {
                        let ghost mid = *self;
                        push_all_keys(&mut self.key_voices, KeyNoteEvent::AllOff);
                        proof {
                            Self::lemma_all_pushed(mid, *self, KeyNoteEvent::AllOff);
                        }
                    },
                    ControlAction::ResetControl => {
                        self.reset_control();
                    },
                    _ => {},
                }
                action
            },
            _ => ControlAction::Floating(event),
        }
    }
}

/// `n` is channel `o` after the event `event`, which returned `r`.
pub open spec fn event_step<SF: SoundfontBase, T: VoiceGeneratorBase>(
    o: VoiceChannel<SF, T>,
    n: VoiceChannel<SF, T>,
    event: ChannelEvent<SF>,
    r: ControlAction,
) -> bool {
    let same_state = n.control_data() == o.control_data() && n.voice_control() == o.voice_control()
        && n.spec_stream_params() == o.spec_stream_params();
    match event {
        ChannelEvent::Audio(audio) => match audio {
            ChannelAudioEvent::NoteOn { key, vel } => {
                &&& r == ControlAction::Nothing
                &&& same_state
                &&& n.spec_params() == o.spec_params()
                &&& n.datas() == o.datas()
                &&& if key < 128 {
                    one_pushed(o.caches(), n.caches(), key as int, KeyNoteEvent::On(vel))
                } else {
                    n.caches() == o.caches()
                }
            },
            ChannelAudioEvent::NoteOff { key } => {
                &&& r == ControlAction::Nothing
                &&& same_state
                &&& n.spec_params() == o.spec_params()
                &&& n.datas() == o.datas()
                &&& if key < 128 {
                    one_pushed(o.caches(), n.caches(), key as int, KeyNoteEvent::Off)
                } else {
                    n.caches() == o.caches()
                }
            },
            ChannelAudioEvent::AllNotesOff => {
                &&& r == ControlAction::Nothing
                &&& same_state
                &&& n.spec_params() == o.spec_params()
                &&& n.datas() == o.datas()
                &&& all_pushed(o.caches(), n.caches(), KeyNoteEvent::AllOff)
            },
            ChannelAudioEvent::AllNotesKilled => {
                &&& r == ControlAction::Nothing
                &&& same_state
                &&& n.spec_params() == o.spec_params()
                &&& n.datas() == o.datas()
                &&& all_pushed(o.caches(), n.caches(), KeyNoteEvent::AllKilled)
            },
            ChannelAudioEvent::ResetControl => r == ControlAction::ResetControl && reset_step(o, n),
            ChannelAudioEvent::SystemReset => r == ControlAction::ResetControl && system_reset_step(o, n),
            ChannelAudioEvent::Control(c) => match c {
                ControlEvent::Raw(controller, value) => control_step(o, n, controller, value, r),
                _ => r == ControlAction::Floating(c) && n == o,
            },
            ChannelAudioEvent::ProgramChange(p) => {
                &&& r == ControlAction::Nothing
                &&& same_state
                &&& n.spec_params() == (VoiceChannelParams {
                    program: ProgramDescriptor { bank: o.spec_params().program.bank, preset: selected_preset(p) },
                    ..o.spec_params()
                })
                &&& n.datas() == o.datas()
                &&& n.caches() == o.caches()
            },
        },
        ChannelEvent::Config(config) => r == ControlAction::Nothing && config_step(o, n, config),
    }
}

/// `n` is channel `o` after the configuration event `config`.
pub open spec fn config_step<SF: SoundfontBase, T: VoiceGeneratorBase>(
    o: VoiceChannel<SF, T>,
    n: VoiceChannel<SF, T>,
    config: ChannelConfigEvent<SF>,
) -> bool {
    let np = n.spec_params();
    let op = o.spec_params();
    &&& n.control_data() == o.control_data()
    &&& n.voice_control() == o.voice_control()
    &&& n.spec_stream_params() == o.spec_stream_params()
    &&& n.datas() == o.datas()
    &&& n.caches() == o.caches()
    &&& np.program == op.program
    &&& np.stats == op.stats
    &&& np.constant == op.constant
    &&& np.channel_sf.program() == op.channel_sf.program()
    &&& match config {
        ChannelConfigEvent::SetSoundfonts(sfs) => {
            &&& np.channel_sf.soundfonts() == sfs@
            &&& np.layers == op.layers
            &&& np.percussion == op.percussion
        },
        ChannelConfigEvent::SetLayerCount(count) => {
            &&& np.channel_sf == op.channel_sf
            &&& np.layers == count
            &&& np.percussion == op.percussion
        },
        ChannelConfigEvent::SetPercussionMode(set) => {
            &&& np.channel_sf == op.channel_sf
            &&& np.layers == op.layers
            &&& np.percussion == set
        },
    }
}

/// `n` is channel `o` after a reset of all controllers.
pub open spec fn reset_step<SF: SoundfontBase, T: VoiceGeneratorBase>(o: VoiceChannel<SF, T>, n: VoiceChannel<SF, T>) -> bool {
    &&& n.control_data() == ControlEventData::spec_defaults()
    &&& n.voice_control().voice_pitch_multiplier == PITCH_MULTIPLIER_ONE
    &&& n.voice_control().envelope.attack is None
    &&& n.voice_control().envelope.release is None
    &&& n.spec_params() == (VoiceChannelParams {
        program: ProgramDescriptor { bank: o.spec_params().program.bank, preset: 0u8 },
        ..o.spec_params()
    })
    &&& n.caches() == o.caches()
    &&& all_damped(o.datas(), n.datas(), false)
    &&& n.spec_stream_params() == o.spec_stream_params()
}

/// `n` is channel `o` after a system reset: the controllers are reset as by
/// `reset_step`, and the program is (0, 0).
pub open spec fn system_reset_step<SF: SoundfontBase, T: VoiceGeneratorBase>(
    o: VoiceChannel<SF, T>,
    n: VoiceChannel<SF, T>,
) -> bool {
    &&& n.control_data() == ControlEventData::spec_defaults()
    &&& n.voice_control().voice_pitch_multiplier == PITCH_MULTIPLIER_ONE
    &&& n.voice_control().envelope.attack is None
    &&& n.voice_control().envelope.release is None
    &&& n.spec_params() == (VoiceChannelParams { program: ProgramDescriptor { bank: 0u8, preset: 0u8 }, ..o.spec_params() })
    &&& n.caches() == o.caches()
    &&& all_damped(o.datas(), n.datas(), false)
    &&& n.spec_stream_params() == o.spec_stream_params()
}

/// `n` is channel `o` after the raw control change (`controller`, `value`),
/// which returned `r`.
pub open spec fn control_step<SF: SoundfontBase, T: VoiceGeneratorBase>(
    o: VoiceChannel<SF, T>,
    n: VoiceChannel<SF, T>,
    controller: u8,
    value: u8,
    r: ControlAction,
) -> bool {
    let (d2, act) = raw_control(o.control_data(), controller, value);
    &&& r == act
    &&& n.spec_stream_params() == o.spec_stream_params()
    &&& match act {
        ControlAction::ResetControl => reset_step(o, n),
        _ => {
            &&& n.control_data() == d2
            &&& match act {
                ControlAction::SetBank(b) => {
                    &&& n.spec_params() == (VoiceChannelParams {
                        program: ProgramDescriptor { bank: selected_bank(b), preset: o.spec_params().program.preset },
                        ..o.spec_params()
                    })
                    &&& n.voice_control() == o.voice_control()
                    &&& n.caches() == o.caches()
                    &&& n.datas() == o.datas()
                },
                ControlAction::Damper(d) => {
                    &&& n.spec_params() == o.spec_params()
                    &&& n.voice_control() == o.voice_control()
                    &&& n.caches() == o.caches()
                    &&& all_damped(o.datas(), n.datas(), d)
                },
                ControlAction::ReleaseTime(v) => {
                    &&& n.spec_params() == o.spec_params()
                    &&& n.voice_control() == (VoiceControlData {
                        envelope: crate::voice::EnvelopeControlData { release: Some(v), ..o.voice_control().envelope },
                        ..o.voice_control()
                    })
                    &&& n.caches() == o.caches()
                    &&& n.datas() == o.datas()
                },
                ControlAction::AttackTime(v) => {
                    &&& n.spec_params() == o.spec_params()
                    &&& n.voice_control() == (VoiceControlData {
                        envelope: crate::voice::EnvelopeControlData { attack: Some(v), ..o.voice_control().envelope },
                        ..o.voice_control()
                    })
                    &&& n.caches() == o.caches()
                    &&& n.datas() == o.datas()
                },
                ControlAction::AllNotesKilled => {
                    &&& n.spec_params() == o.spec_params()
                    &&& n.voice_control() == o.voice_control()
                    &&& all_pushed(o.caches(), n.caches(), KeyNoteEvent::AllKilled)
                    &&& n.datas() == o.datas()
                },
                ControlAction::AllNotesOff => {
                    &&& n.spec_params() == o.spec_params()
                    &&& n.voice_control() == o.voice_control()
                    &&& all_pushed(o.caches(), n.caches(), KeyNoteEvent::AllOff)
                    &&& n.datas() == o.datas()
                },
                _ => {
                    &&& n.spec_params() == o.spec_params()
                    &&& n.voice_control() == o.voice_control()
                    &&& n.caches() == o.caches()
                    &&& n.datas() == o.datas()
                },
            }
        },
    }
}

/// A note-off starts no voice from sample soundfonts (they have no
/// release voices), so any list of them leaves every key's note-offs
/// silent.
pub proof fn lemma_sample_releases_silent<P: SampleVoiceFactory>(
    sfs: Seq<std::sync::Arc<SampleSoundfont<P>>>,
    prog: ProgramDescriptor,
    key: u8,
)
    ensures
        releases_silent(sfs, prog, key),
{
    assert forall|v: u8| v < 128 implies #[trigger] chosen_release(sfs, prog, key, v).len() == 0 by {
        lemma_sample_first_release_empty(sfs, prog.bank, prog.preset, key, v, 0);
        lemma_sample_first_release_empty(sfs, 128, 0, key, v, 0);
        lemma_sample_first_release_empty(sfs, 0, prog.preset, key, v, 0);
    }
}

proof fn lemma_sample_first_release_empty<P: SampleVoiceFactory>(
    sfs: Seq<std::sync::Arc<SampleSoundfont<P>>>,
    bank: u8,
    preset: u8,
    key: u8,
    vel: u8,
    i: int,
)
    ensures
        first_release_from(sfs, bank, preset, key, vel, i).len() == 0,
    decreases sfs.len() - i,
{
    if 0 <= i < sfs.len() {
        lemma_sample_first_release_empty(sfs, bank, preset, key, vel, i + 1);
    }
}


/// `n` is channel `o` after the events `events`, in order, which returned
/// the actions `actions`.
pub open spec fn events_sent<SF: SoundfontBase, T: VoiceGeneratorBase>(
    o: VoiceChannel<SF, T>,
    n: VoiceChannel<SF, T>,
    events: Seq<ChannelEvent<SF>>,
    actions: Seq<ControlAction>,
) -> bool {
    &&& actions.len() == events.len()
    &&& exists|states: Seq<VoiceChannel<SF, T>>|
        #![trigger states.len(), states[0]]
        {
            &&& states.len() == events.len() + 1
            &&& states[0] == o
            &&& states[events.len() as int] == n
            &&& forall|i: int|
                0 <= i < events.len() ==> #[trigger] states[i].wf() && event_step(
                    states[i],
                    states[i + 1],
                    events[i],
                    actions[i],
                )
        }
}

/// Sending no event leaves the channel as it is.
proof fn lemma_events_sent_empty<SF: SoundfontBase, T: VoiceGeneratorBase>(o: VoiceChannel<SF, T>)
    ensures
        events_sent(o, o, Seq::empty(), Seq::empty()),
{
    let states = seq![o];
    assert(states.len() == 1 && states[0] == o);
}

/// Sending one more event extends the events sent.
proof fn lemma_events_sent_push<SF: SoundfontBase, T: VoiceGeneratorBase>(
    o: VoiceChannel<SF, T>,
    m: VoiceChannel<SF, T>,
    n: VoiceChannel<SF, T>,
    events: Seq<ChannelEvent<SF>>,
    actions: Seq<ControlAction>,
    e: ChannelEvent<SF>,
    a: ControlAction,
)
    requires
        events_sent(o, m, events, actions),
        m.wf(),
        event_step(m, n, e, a),
    ensures
        events_sent(o, n, events.push(e), actions.push(a)),
{
    let states = choose|states: Seq<VoiceChannel<SF, T>>|
        #![trigger states.len(), states[0]]
        {
            &&& states.len() == events.len() + 1
            &&& states[0] == o
            &&& states[events.len() as int] == m
            &&& forall|i: int|
                0 <= i < events.len() ==> #[trigger] states[i].wf() && event_step(
                    states[i],
                    states[i + 1],
                    events[i],
                    actions[i],
                )
        };
    let s2 = states.push(n);
    let t = events.push(e);
    let b = actions.push(a);
    assert forall|i: int| 0 <= i < t.len() implies #[trigger] s2[i].wf() && event_step(
        s2[i],
        s2[i + 1],
        t[i],
        b[i],
    ) by {
        if i < events.len() {
            assert(s2[i] == states[i]);
            assert(s2[i + 1] == states[i + 1]);
            assert(t[i] == events[i]);
            assert(b[i] == actions[i]);
            assert(states[i].wf() && event_step(states[i], states[i + 1], events[i], actions[i]));
        } else {
            assert(s2[i] == m);
            assert(s2[i + 1] == n);
            assert(t[i] == e);
            assert(b[i] == a);
        }
    }
    assert(s2.len() == t.len() + 1 && s2[0] == o && s2[t.len() as int] == n);
}

impl<SF: SoundfontBase, T: VoiceGeneratorBase> VoiceChannel<SF, T> {
    /// Sends the events to the channel, in order, each as `process_event`
    /// does; returns the action of each.
    pub fn push_events_iter(&mut self, events: Vec<ChannelEvent<SF>>) -> (r: Vec<ControlAction>)
        requires
            old(self).wf(),
        ensures
            final(self).wf(),
            events_sent(*old(self), *final(self), events@, r@),
    {
        let ghost o = *self;
        let ghost all = events@;
        let mut rest = events;
        let mut acts: Vec<ControlAction> = Vec::new();
        proof {
            lemma_events_sent_empty(o);
            assert(all.take(0) =~= Seq::<ChannelEvent<SF>>::empty());
            assert(all.skip(0) =~= all);
        }
        while rest.len() > 0
            invariant
                self.wf(),
                acts@.len() <= all.len(),
                rest@ == all.skip(acts@.len() as int),
                events_sent(o, *self, all.take(acts@.len() as int), acts@),
            decreases rest@.len(),
        {
            let ghost i = acts@.len() as int;
            let ghost m = *self;
            let e = rest.remove(0);
            proof {
                assert(e == all[i]);
            }
            let a = self.process_event(e);
            proof {
                lemma_events_sent_push(o, m, *self, all.take(i), acts@, all[i], a);
                assert(all.take(i).push(all[i]) =~= all.take(i + 1));
                assert(rest@ =~= all.skip(i + 1));
            }
            acts.push(a);
        }
        proof {
            assert(acts@.len() == all.len());
            assert(all.take(all.len() as int) =~= all);
        }
        acts
    }
}


/// A run of states and actions for `events` from `o` to `n`, as
/// `events_sent` asks for one.
pub open spec fn is_run<SF: SoundfontBase, T: VoiceGeneratorBase>(
    states: Seq<VoiceChannel<SF, T>>,
    o: VoiceChannel<SF, T>,
    n: VoiceChannel<SF, T>,
    events: Seq<ChannelEvent<SF>>,
    actions: Seq<ControlAction>,
) -> bool {
    &&& states.len() == events.len() + 1
    &&& states[0] == o
    &&& states[events.len() as int] == n
    &&& forall|i: int|
        0 <= i < events.len() ==> #[trigger] states[i].wf() && event_step(
            states[i],
            states[i + 1],
            events[i],
            actions[i],
        )
}

proof fn lemma_run_of<SF: SoundfontBase, T: VoiceGeneratorBase>(
    o: VoiceChannel<SF, T>,
    n: VoiceChannel<SF, T>,
    events: Seq<ChannelEvent<SF>>,
    actions: Seq<ControlAction>,
) -> (states: Seq<VoiceChannel<SF, T>>)
    requires
        events_sent(o, n, events, actions),
    ensures
        is_run(states, o, n, events, actions),
{
    choose|states: Seq<VoiceChannel<SF, T>>|
        #![trigger states.len(), states[0]]
        {
            &&& states.len() == events.len() + 1
            &&& states[0] == o
            &&& states[events.len() as int] == n
            &&& forall|i: int|
                0 <= i < events.len() ==> #[trigger] states[i].wf() && event_step(
                    states[i],
                    states[i + 1],
                    events[i],
                    actions[i],
                )
        }
}

proof fn lemma_sent_of_run<SF: SoundfontBase, T: VoiceGeneratorBase>(
    states: Seq<VoiceChannel<SF, T>>,
    o: VoiceChannel<SF, T>,
    n: VoiceChannel<SF, T>,
    events: Seq<ChannelEvent<SF>>,
    actions: Seq<ControlAction>,
)
    requires
        is_run(states, o, n, events, actions),
        actions.len() == events.len(),
    ensures
        events_sent(o, n, events, actions),
{
    assert(states.len() == events.len() + 1 && states[0] == o);
}

/// Sending one event is sending the list that holds it alone.
pub proof fn lemma_events_sent_one<SF: SoundfontBase, T: VoiceGeneratorBase>(
    o: VoiceChannel<SF, T>,
    n: VoiceChannel<SF, T>,
    e: ChannelEvent<SF>,
    a: ControlAction,
)
    ensures
        events_sent(o, n, seq![e], seq![a]) <==> (o.wf() && event_step(o, n, e, a)),
{
    if events_sent(o, n, seq![e], seq![a]) {
        let states = lemma_run_of(o, n, seq![e], seq![a]);
        assert(states[0].wf() && event_step(states[0], states[1], seq![e][0], seq![a][0]));
    }
    if o.wf() && event_step(o, n, e, a) {
        let states = seq![o, n];
        assert forall|i: int| 0 <= i < 1 implies #[trigger] states[i].wf() && event_step(
            states[i],
            states[i + 1],
            seq![e][i],
            seq![a][i],
        ) by {
            assert(i == 0);
        }
        lemma_sent_of_run(states, o, n, seq![e], seq![a]);
    }
}

/// Sending the events `a` and then the events `b` is sending `a + b`: the
/// channel ends as after sending them joined, with the actions joined.
pub proof fn lemma_events_sent_join<SF: SoundfontBase, T: VoiceGeneratorBase>(
    o: VoiceChannel<SF, T>,
    m: VoiceChannel<SF, T>,
    n: VoiceChannel<SF, T>,
    a: Seq<ChannelEvent<SF>>,
    b: Seq<ChannelEvent<SF>>,
    ra: Seq<ControlAction>,
    rb: Seq<ControlAction>,
)
    requires
        events_sent(o, m, a, ra),
        events_sent(m, n, b, rb),
    ensures
        events_sent(o, n, a + b, ra + rb),
{
    let s1 = lemma_run_of(o, m, a, ra);
    let s2 = lemma_run_of(m, n, b, rb);
    let states = s1 + s2.skip(1);
    let ev = a + b;
    let acts = ra + rb;
    assert forall|i: int| 0 <= i < ev.len() implies #[trigger] states[i].wf() && event_step(
        states[i],
        states[i + 1],
        ev[i],
        acts[i],
    ) by {
        if i < a.len() {
            assert(states[i] == s1[i]);
            assert(states[i + 1] == s1[i + 1]);
            assert(ev[i] == a[i] && acts[i] == ra[i]);
            assert(s1[i].wf() && event_step(s1[i], s1[i + 1], a[i], ra[i]));
        } else {
            let k = i - a.len();
            assert(states[i] == s2[k]);
            assert(states[i + 1] == s2[k + 1]);
            assert(ev[i] == b[k] && acts[i] == rb[k]);
            assert(s2[k].wf() && event_step(s2[k], s2[k + 1], b[k], rb[k]));
        }
    }
    assert(states[ev.len() as int] == s2[b.len() as int]);
    lemma_sent_of_run(states, o, n, ev, acts);
}

/// Conversely, sending `a + b` passes, after `a`, through a channel from
/// which sending `b` leads to the end: every run of the joined events is a
/// run of `a` followed by a run of `b`.
pub proof fn lemma_events_sent_split<SF: SoundfontBase, T: VoiceGeneratorBase>(
    o: VoiceChannel<SF, T>,
    n: VoiceChannel<SF, T>,
    a: Seq<ChannelEvent<SF>>,
    b: Seq<ChannelEvent<SF>>,
    r: Seq<ControlAction>,
)
    requires
        events_sent(o, n, a + b, r),
    ensures
        exists|m: VoiceChannel<SF, T>|
            events_sent(o, m, a, r.take(a.len() as int)) && #[trigger] events_sent(
                m,
                n,
                b,
                r.skip(a.len() as int),
            ),
{
    let ev = a + b;
    let states = lemma_run_of(o, n, ev, r);
    let la = a.len() as int;
    let m = states[la];
    let s1 = states.take(la + 1);
    let s2 = states.skip(la);
    let ra = r.take(la);
    let rb = r.skip(la);
    assert(ev.len() == a.len() + b.len());
    assert forall|i: int| 0 <= i < a.len() implies #[trigger] s1[i].wf() && event_step(
        s1[i],
        s1[i + 1],
        a[i],
        ra[i],
    ) by {
        assert(ev[i] == a[i]);
        assert(0 <= i < ev.len());
        assert(s1[i] == states[i] && s1[i + 1] == states[i + 1] && ra[i] == r[i]);
        assert(states[i].wf() && event_step(states[i], states[i + 1], ev[i], r[i]));
    }
    assert forall|i: int| 0 <= i < b.len() implies #[trigger] s2[i].wf() && event_step(
        s2[i],
        s2[i + 1],
        b[i],
        rb[i],
    ) by {
        assert(ev[i + la] == b[i]);
        assert(0 <= i + la < ev.len());
        assert(s2[i] == states[i + la] && s2[i + 1] == states[i + la + 1] && rb[i] == r[i + la]);
        assert(states[i + la].wf() && event_step(states[i + la], states[i + la + 1], ev[i + la], r[i + la]));
    }
    lemma_sent_of_run(s1, o, m, a, ra);
    lemma_sent_of_run(s2, m, n, b, rb);
}


/// The record a key keeps of its voices, everything but the generators:
/// its number, its voice count at the last render, its shared counter, the
/// id, velocity and release state of each voice, the groups held by the
/// damper, the group counter, the options and the damper.
pub open spec fn same_key_record<T: VoiceGeneratorBase>(a: KeyData<T>, b: KeyData<T>) -> bool {
    &&& a.spec_key() == b.spec_key()
    &&& a.spec_last_voice_count() == b.spec_last_voice_count()
    &&& a.counter() == b.counter()
    &&& a.buffer()@ == b.buffer()@
    &&& a.buffer().held() == b.buffer().held()
    &&& a.buffer().spec_id_counter() == b.buffer().spec_id_counter()
    &&& a.buffer().spec_options() == b.buffer().spec_options()
    &&& a.buffer().spec_damper_held() == b.buffer().spec_damper_held()
}

/// What events decide of a channel: its controllers, what they ask of the
/// voices, the stream, the note events waiting at each key, the record each
/// key keeps of its voices, and its parameters as seen (program, layers,
/// percussion mode, statistics, constants, soundfonts and their program).
/// Left out are only the voices' generators: releasing a voice tells its
/// generator, whose answer the library does not see.
pub open spec fn same_course<SF: SoundfontBase, T: VoiceGeneratorBase>(
    a: VoiceChannel<SF, T>,
    b: VoiceChannel<SF, T>,
) -> bool {
    let pa = a.spec_params();
    let pb = b.spec_params();
    &&& a.control_data() == b.control_data()
    &&& a.voice_control() == b.voice_control()
    &&& a.spec_stream_params() == b.spec_stream_params()
    &&& a.caches() == b.caches()
    &&& a.datas().len() == b.datas().len()
    &&& forall|k: int| 0 <= k < a.datas().len() ==> #[trigger] same_key_record(a.datas()[k], b.datas()[k])
    &&& pa.stats == pb.stats
    &&& pa.layers == pb.layers
    &&& pa.program == pb.program
    &&& pa.percussion == pb.percussion
    &&& pa.constant == pb.constant
    &&& pa.channel_sf.soundfonts() == pb.channel_sf.soundfonts()
    &&& pa.channel_sf.program() == pb.channel_sf.program()
}

/// Setting the damper of two keys with the same record leaves them with
/// the same record.
proof fn lemma_damper_same_record<T: VoiceGeneratorBase>(
    o1: KeyData<T>,
    o2: KeyData<T>,
    n1: KeyData<T>,
    n2: KeyData<T>,
    damper: bool,
)
    requires
        same_key_record(o1, o2),
        damper_step(o1, n1, damper),
        damper_step(o2, n2, damper),
    ensures
        same_key_record(n1, n2),
{
    assert(n1.buffer()@ =~= n2.buffer()@);
    assert(n1.buffer().held() =~= n2.buffer().held());
}

/// Setting the damper of every key keeps the records of two channels'
/// keys the same.
proof fn lemma_all_damped_same<T: VoiceGeneratorBase>(
    o1: Seq<KeyData<T>>,
    o2: Seq<KeyData<T>>,
    n1: Seq<KeyData<T>>,
    n2: Seq<KeyData<T>>,
    damper: bool,
)
    requires
        o1.len() == o2.len(),
        forall|k: int| 0 <= k < o1.len() ==> #[trigger] same_key_record(o1[k], o2[k]),
        all_damped(o1, n1, damper),
        all_damped(o2, n2, damper),
    ensures
        n1.len() == n2.len(),
        forall|k: int| 0 <= k < n1.len() ==> #[trigger] same_key_record(n1[k], n2[k]),
{
    assert forall|k: int| 0 <= k < n1.len() implies #[trigger] same_key_record(n1[k], n2[k]) by {
        assert(same_key_record(o1[k], o2[k]));
        assert(damper_step(o1[k], n1[k], damper));
        assert(damper_step(o2[k], n2[k], damper));
        lemma_damper_same_record(o1[k], o2[k], n1[k], n2[k], damper);
    }
}

/// One event, sent to two channels that agree on what events decide,
/// returns the same action and leaves them agreeing.
pub proof fn lemma_event_step_course<SF: SoundfontBase, T: VoiceGeneratorBase>(
    o1: VoiceChannel<SF, T>,
    o2: VoiceChannel<SF, T>,
    n1: VoiceChannel<SF, T>,
    n2: VoiceChannel<SF, T>,
    e: ChannelEvent<SF>,
    r1: ControlAction,
    r2: ControlAction,
)
    requires
        same_course(o1, o2),
        event_step(o1, n1, e, r1),
        event_step(o2, n2, e, r2),
    ensures
        r1 == r2,
        same_course(n1, n2),
{
    assert(n1.caches() =~= n2.caches());
    if n1.datas() != o1.datas() || n2.datas() != o2.datas() {
        let damper = match e {
            ChannelEvent::Audio(ChannelAudioEvent::Control(ControlEvent::Raw(controller, value))) => {
                match raw_control(o1.control_data(), controller, value).1 {
                    ControlAction::Damper(d) => d,
                    _ => false,
                }
            },
            _ => false,
        };
        lemma_all_damped_same(o1.datas(), o2.datas(), n1.datas(), n2.datas(), damper);
    }
}

/// The same events, sent to two channels that agree on what events decide,
/// return the same actions and leave them agreeing.
pub proof fn lemma_events_sent_course<SF: SoundfontBase, T: VoiceGeneratorBase>(
    o1: VoiceChannel<SF, T>,
    o2: VoiceChannel<SF, T>,
    n1: VoiceChannel<SF, T>,
    n2: VoiceChannel<SF, T>,
    events: Seq<ChannelEvent<SF>>,
    a1: Seq<ControlAction>,
    a2: Seq<ControlAction>,
)
    requires
        same_course(o1, o2),
        events_sent(o1, n1, events, a1),
        events_sent(o2, n2, events, a2),
    ensures
        a1 == a2,
        same_course(n1, n2),
    decreases events.len(),
{
    if events.len() == 0 {
        let s1 = lemma_run_of(o1, n1, events, a1);
        let s2 = lemma_run_of(o2, n2, events, a2);
        assert(a1 =~= a2);
    } else {
        let k = events.len() - 1;
        let front = events.take(k);
        let last = seq![events[k]];
        assert(events =~= front + last);
        lemma_events_sent_split(o1, n1, front, last, a1);
        lemma_events_sent_split(o2, n2, front, last, a2);
        let m1 = choose|m: VoiceChannel<SF, T>|
            events_sent(o1, m, front, a1.take(k)) && #[trigger] events_sent(m, n1, last, a1.skip(k));
        let m2 = choose|m: VoiceChannel<SF, T>|
            events_sent(o2, m, front, a2.take(k)) && #[trigger] events_sent(m, n2, last, a2.skip(k));
        lemma_events_sent_course(o1, o2, m1, m2, front, a1.take(k), a2.take(k));
        assert(a1.skip(k) =~= seq![a1[k]]);
        assert(a2.skip(k) =~= seq![a2[k]]);
        lemma_events_sent_one(m1, n1, events[k], a1[k]);
        lemma_events_sent_one(m2, n2, events[k], a2[k]);
        lemma_event_step_course(m1, m2, n1, n2, events[k], a1[k], a2[k]);
        assert(a1 =~= a1.take(k) + a1.skip(k));
        assert(a2 =~= a2.take(k) + a2.skip(k));
    }
}


/// Sending `a + b` to a channel, or `a` and then `b` to the same channel,
/// returns the same actions and ends in channels that agree in everything
/// but the voices' generators (see `same_course`).
pub proof fn lemma_events_sent_in_two<SF: SoundfontBase, T: VoiceGeneratorBase>(
    o: VoiceChannel<SF, T>,
    m: VoiceChannel<SF, T>,
    n1: VoiceChannel<SF, T>,
    n2: VoiceChannel<SF, T>,
    a: Seq<ChannelEvent<SF>>,
    b: Seq<ChannelEvent<SF>>,
    r: Seq<ControlAction>,
    ra: Seq<ControlAction>,
    rb: Seq<ControlAction>,
)
    requires
        events_sent(o, n1, a + b, r),
        events_sent(o, m, a, ra),
        events_sent(m, n2, b, rb),
    ensures
        r == ra + rb,
        same_course(n1, n2),
{
    lemma_events_sent_join(o, m, n2, a, b, ra, rb);
    lemma_events_sent_course(o, o, n1, n2, a + b, r, ra + rb);
}


/// On a percussion channel, a program change to drum kit `p` (0 to 127)
/// makes the kit that the channel's notes play from `p` in the percussion
/// bank (128); on another channel, preset `p` of its bank.
pub proof fn lemma_drum_kit_change<SF: SoundfontBase, T: VoiceGeneratorBase>(
    o: VoiceChannel<SF, T>,
    n: VoiceChannel<SF, T>,
    p: u8,
    r: ControlAction,
)
    requires
        p <= 127,
        event_step(o, n, ChannelEvent::Audio(ChannelAudioEvent::ProgramChange(p)), r),
    ensures
        n.spec_params().percussion == o.spec_params().percussion,
        o.spec_params().percussion ==> effective_program(n.spec_params().program, n.spec_params().percussion) == (
        ProgramDescriptor { bank: 128, preset: p }),
        !o.spec_params().percussion ==> effective_program(n.spec_params().program, n.spec_params().percussion) == (
        ProgramDescriptor { bank: o.spec_params().program.bank, preset: p }),
{
}
} // verus!
