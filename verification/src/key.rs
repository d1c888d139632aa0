use std::sync::atomic::AtomicU64;
use std::sync::atomic::Ordering;
use std::sync::Arc;
use vstd::prelude::*;

use crate::channel_sf::{chosen_attack, chosen_release, ChannelSoundfont};
use crate::config::ChannelInitOptions;
use crate::events::KeyNoteEvent;
use crate::soundfont::SoundfontBase;
use crate::voice::{ReleaseType, VoiceBase, VoiceControlData, VoiceGeneratorBase, VoiceSpawner};
use crate::voice_buffer::{
    count_where, pushed_voices, release_next_voices, signalled,
    first_unheld_from, first_unreleased_from, group_infos, lemma_first_unreleased_found, lemma_push_empty_unreleased,
    lemma_push_midi, lemma_release_next_midi, lemma_release_next_unreleased, lemma_unreleased_bound, midi_voices,
    push_result, release_next_infos, released_info, unreleased_count, VoiceBuffer, VoiceInfo, select, infos,
    lemma_select_keeps, GroupVoice, all_off_result, lemma_all_off_step, lemma_all_off_releases, unended_flags, lemma_select_unended, unended,
};

verus! {

/// The information of the voices that `spawners` start, as one group with
/// id `id`.
pub open spec fn spawn_infos<S: VoiceSpawner>(spawners: Seq<S>, id: usize) -> Seq<VoiceInfo> {
    spawners.map_values(
        |sp: S| VoiceInfo { id: id, velocity: sp.spawn_velocity(), releasing: false, killed: false },
    )
}

/// The voices and held groups of a key after a note-on with velocity
/// `vel`: the voices chosen for it are pushed as the group after `counter`.
pub open spec fn note_on_result<SF: SoundfontBase>(
    buffer: Seq<VoiceInfo>,
    held: Seq<usize>,
    counter: usize,
    sfs: Seq<Arc<SF>>,
    program: crate::channel_sf::ProgramDescriptor,
    key: u8,
    vel: u8,
    fade: bool,
    max: Option<usize>,
) -> (Seq<VoiceInfo>, Seq<usize>) {
    let id = (counter + 1) as usize;
    push_result(buffer, held, id, spawn_infos(chosen_attack(sfs, program, key, vel), id), fade, max)
}

/// Starts a voice from each spawner, in order.
fn spawn_all<S: VoiceSpawner>(spawners: &Vec<S>, control: &VoiceControlData) -> (r: Vec<VoiceBase<S::Generator>>)
    ensures
        r@.len() == spawners@.len(),
        forall|j: int|
            0 <= j < r@.len() ==> {
                &&& (#[trigger] r@[j]).spec_velocity() == spawners@[j].spawn_velocity()
                &&& r@[j].spec_velocity() < 128
                &&& !r@[j].spec_killed()
                &&& !r@[j].spec_releasing()
            },
{
    let mut out: Vec<VoiceBase<S::Generator>> = Vec::new();
    let mut i: usize = 0;
    while i < spawners.len()
        invariant
            0 <= i <= spawners@.len(),
            out@.len() == i,
            forall|j: int|
                0 <= j < i ==> {
                    &&& (#[trigger] out@[j]).spec_velocity() == spawners@[j].spawn_velocity()
                    &&& out@[j].spec_velocity() < 128
                    &&& !out@[j].spec_killed()
                    &&& !out@[j].spec_releasing()
                },
        decreases spawners@.len() - i,
    {
        let v = spawners[i].spawn_voice(control);
        out.push(v);
        i = i + 1;
    }
    out
}

/// How much the shared voice counter moves when a key's voice count goes
/// from `last` to `now`: the difference, and whether it is a decrease.
fn count_change(last: usize, now: usize) -> (r: (u64, bool))
    ensures
        r.1 == (now < last),
        r.1 ==> r.0 == last - now,
        !r.1 ==> r.0 == now - last,
{
    if now < last {
        ((last - now) as u64, true)
    } else {
        ((now - last) as u64, false)
    }
}

/// `n` is key `o` after the note event `event`, with the soundfonts
/// `sfs`, the program `prog` and the layer limit `max`.
pub open spec fn key_event_step<SF: SoundfontBase, T: VoiceGeneratorBase>(
    o: KeyData<T>,
    n: KeyData<T>,
    event: KeyNoteEvent,
    sfs: Seq<Arc<SF>>,
    prog: crate::channel_sf::ProgramDescriptor,
    max: Option<usize>,
) -> bool {
    &&& n.spec_key() == o.spec_key()
    &&& n.spec_last_voice_count() == o.spec_last_voice_count()
    &&& n.counter() == o.counter()
    &&& n.buffer().spec_options() == o.buffer().spec_options()
    &&& n.buffer().spec_damper_held() == o.buffer().spec_damper_held()
    &&& {
        let b = o.buffer();
        let s = b@;
        let c = b.spec_id_counter();
        let fade = b.spec_options().fade_out_killing;
        let key = o.spec_key();
        let fb = n.buffer();
        match event {
            KeyNoteEvent::On(vel) => {
                let id = (c + 1) as usize;
                &&& (fb@, fb.held()) == note_on_result(s, b.held(), c, sfs, prog, key, vel, fade, max)
                &&& fb.spec_id_counter() == c + 1
                &&& exists|new: Seq<VoiceBase<T>>|
                    group_infos(new, id) == spawn_infos(chosen_attack(sfs, prog, key, vel), id)
                        && #[trigger] pushed_voices(b.voices(), new, id, fade, max) == fb.voices()
            },
            KeyNoteEvent::Off => if b.spec_damper_held() {
                let k = first_unheld_from(s, b.held(), 0);
                &&& fb@ == s
                &&& fb.voices() == b.voices()
                &&& fb.held() == if k < s.len() {
                    b.held().push(s[k].id)
                } else {
                    b.held()
                }
                &&& fb.spec_id_counter() == c
            } else {
                let f = first_unreleased_from(s, 0);
                if f < s.len() {
                    let id = (c + 1) as usize;
                    &&& (fb@, fb.held()) == push_result(
                        release_next_infos(s),
                        b.held(),
                        id,
                        spawn_infos(chosen_release(sfs, prog, key, s[f].velocity), id),
                        fade,
                        max,
                    )
                    &&& fb.spec_id_counter() == id
                    &&& exists|new: Seq<VoiceBase<T>>|
                        group_infos(new, id) == spawn_infos(chosen_release(sfs, prog, key, s[f].velocity), id)
                            && #[trigger] pushed_voices(release_next_voices(b.voices()), new, id, fade, max)
                            == fb.voices()
                } else {
                    &&& fb@ == s
                    &&& fb.voices() == b.voices()
                    &&& fb.held() == b.held()
                    &&& fb.spec_id_counter() == c
                }
            },
            KeyNoteEvent::AllOff => if b.spec_damper_held() {
                &&& fb@ == s
                &&& fb.voices() == b.voices()
                &&& fb.held() == hold_all(s, b.held())
                &&& fb.spec_id_counter() == c
            } else {
                &&& (fb@, fb.held(), fb.spec_id_counter()) == all_off_result(s, b.held(), c, fade, max)
                &&& fb.voices() == all_off_voices(b.voices(), c, fade, max)
                &&& forall|j: int| 0 <= j < fb@.len() ==> (#[trigger] fb@[j]).releasing
                &&& c <= fb.spec_id_counter() <= c + s.len()
            },
            KeyNoteEvent::AllKilled => if fade {
                &&& fb@ == Seq::new(s.len(), |j: int| released_info(s[j], ReleaseType::Kill))
                &&& fb.voices() == Seq::new(b.voices().len(), |j: int| signalled(b.voices()[j], ReleaseType::Kill))
                &&& fb.held() == b.held()
                &&& fb.spec_id_counter() == 0
            } else {
                &&& fb@ == Seq::<VoiceInfo>::empty()
                &&& fb.voices() == Seq::<GroupVoice<T>>::empty()
                &&& fb.held() == b.held()
                &&& fb.spec_id_counter() == c
            },
        }
    }
}

/// Whether key `o` can play `event` without its group counter running past
/// the largest `usize`.
pub open spec fn event_fits<T: VoiceGeneratorBase>(o: KeyData<T>, event: KeyNoteEvent) -> bool {
    event is AllKilled || o.buffer().spec_id_counter() + o.buffer()@.len() < usize::MAX
}

/// `n` is key `m` after `e`, or `m` itself when `e` does not fit.
pub open spec fn event_step_or_skip<SF: SoundfontBase, T: VoiceGeneratorBase>(
    m: KeyData<T>,
    n: KeyData<T>,
    e: KeyNoteEvent,
    sfs: Seq<Arc<SF>>,
    prog: crate::channel_sf::ProgramDescriptor,
    max: Option<usize>,
) -> bool {
    &&& m.wf()
    &&& if event_fits(m, e) {
        key_event_step(m, n, e, sfs, prog, max)
    } else {
        n == m
    }
}

/// `n` is key `o` after the note events `events`, in order; an event that
/// does not fit (see `event_fits`) is dropped.
pub open spec fn key_events_applied<SF: SoundfontBase, T: VoiceGeneratorBase>(
    o: KeyData<T>,
    n: KeyData<T>,
    events: Seq<KeyNoteEvent>,
    sfs: Seq<Arc<SF>>,
    prog: crate::channel_sf::ProgramDescriptor,
    max: Option<usize>,
) -> bool {
    exists|states: Seq<KeyData<T>>|
        #![trigger states.len(), states[0]]
        {
            &&& states.len() == events.len() + 1
            &&& states[0] == o
            &&& states[events.len() as int] == n
            &&& forall|i: int|
                0 <= i < events.len() ==> #[trigger] event_step_or_skip(states[i], states[i + 1], events[i], sfs, prog, max)
        }
}

/// Playing no event leaves the key as it is.
pub proof fn lemma_events_empty<SF: SoundfontBase, T: VoiceGeneratorBase>(
    o: KeyData<T>,
    sfs: Seq<Arc<SF>>,
    prog: crate::channel_sf::ProgramDescriptor,
    max: Option<usize>,
)
    ensures
        key_events_applied(o, o, Seq::empty(), sfs, prog, max),
{
    let states = seq![o];
    assert(states.len() == 1 && states[0] == o);
}

/// Playing one more event extends the events played.
pub proof fn lemma_events_push<SF: SoundfontBase, T: VoiceGeneratorBase>(
    o: KeyData<T>,
    m: KeyData<T>,
    n: KeyData<T>,
    events: Seq<KeyNoteEvent>,
    e: KeyNoteEvent,
    sfs: Seq<Arc<SF>>,
    prog: crate::channel_sf::ProgramDescriptor,
    max: Option<usize>,
)
    requires
        key_events_applied(o, m, events, sfs, prog, max),
        event_step_or_skip(m, n, e, sfs, prog, max),
    ensures
        key_events_applied(o, n, events.push(e), sfs, prog, max),
{
    let states = choose|states: Seq<KeyData<T>>|
        #![trigger states.len(), states[0]]
        {
            &&& states.len() == events.len() + 1
            &&& states[0] == o
            &&& states[events.len() as int] == m
            &&& forall|i: int|
                0 <= i < events.len() ==> #[trigger] event_step_or_skip(states[i], states[i + 1], events[i], sfs, prog, max)
        };
    let s2 = states.push(n);
    let t = events.push(e);
    assert forall|i: int| 0 <= i < t.len() implies #[trigger] event_step_or_skip(s2[i], s2[i + 1], t[i], sfs, prog, max) by {
        if i < events.len() {
            assert(s2[i] == states[i]);
            assert(s2[i + 1] == states[i + 1]);
            assert(t[i] == events[i]);
            assert(event_step_or_skip(states[i], states[i + 1], events[i], sfs, prog, max));
        } else {
            assert(s2[i] == m);
            assert(s2[i + 1] == n);
            assert(t[i] == e);
        }
    }
    assert(s2.len() == t.len() + 1 && s2[0] == o && s2[t.len() as int] == n);
}

/// `n` is key `o` after its damper was set to `damper`: lifting a held
/// damper releases every voice whose group is held and empties the held
/// list; otherwise the voices stay as they are.
pub open spec fn damper_step<T: VoiceGeneratorBase>(o: KeyData<T>, n: KeyData<T>, damper: bool) -> bool {
    let b = o.buffer();
    let s = b@;
    &&& n.spec_key() == o.spec_key()
    &&& n.spec_last_voice_count() == o.spec_last_voice_count()
    &&& n.counter() == o.counter()
    &&& n.buffer().spec_id_counter() == b.spec_id_counter()
    &&& n.buffer().spec_options() == b.spec_options()
    &&& n.buffer().spec_damper_held() == damper
    &&& if b.spec_damper_held() && !damper {
        &&& n.buffer()@ == Seq::new(
            s.len(),
            |j: int|
                if b.held().contains(s[j].id) {
                    released_info(s[j], ReleaseType::Standard)
                } else {
                    s[j]
                },
        )
        &&& n.buffer().voices() == Seq::new(
            b.voices().len(),
            |j: int|
                if b.held().contains(b.voices()[j].id) {
                    signalled(b.voices()[j], ReleaseType::Standard)
                } else {
                    b.voices()[j]
                },
        )
        &&& n.buffer().held() == Seq::<usize>::empty()
    } else {
        &&& n.buffer()@ == s
        &&& n.buffer().voices() == b.voices()
        &&& n.buffer().held() == b.held()
    }
}

/// The voices of one key of a channel, and its share of the channel's
/// voice counter.
pub struct KeyData<T> {
    key: u8,
    voices: VoiceBuffer<T>,
    last_voice_count: usize,
    shared_voice_counter: Arc<AtomicU64>,
}

impl<T: VoiceGeneratorBase> KeyData<T> {
    /// The key (0 to 127).
    pub closed spec fn spec_key(&self) -> u8 {
        self.key
    }

    /// The voices of the key.
    pub closed spec fn buffer(&self) -> VoiceBuffer<T> {
        self.voices
    }

    /// The voice count last added to the shared counter.
    pub closed spec fn spec_last_voice_count(&self) -> usize {
        self.last_voice_count
    }

    /// The shared voice counter.
    pub closed spec fn counter(&self) -> Arc<AtomicU64> {
        self.shared_voice_counter
    }

    /// A MIDI key, a consistent buffer, and voices of MIDI velocities.
    pub closed spec fn wf(&self) -> bool {
        &&& self.key < 128
        &&& self.voices.wf()
        &&& midi_voices(self.voices@)
    }

    /// The key `key` with no voices, sharing the channel's voice counter.
    pub fn new(key: u8, shared_voice_counter: Arc<AtomicU64>, options: ChannelInitOptions) -> (r: Self)
        requires
            key < 128,
        ensures
            r.wf(),
            r.spec_key() == key,
            r.buffer()@ == Seq::<VoiceInfo>::empty(),
            r.buffer().held() == Seq::<usize>::empty(),
            r.buffer().spec_id_counter() == 0,
            !r.buffer().spec_damper_held(),
            r.buffer().spec_options() == options,
            r.spec_last_voice_count() == 0,
            r.counter() == shared_voice_counter,
    {
        KeyData { key, voices: VoiceBuffer::new(options), last_voice_count: 0, shared_voice_counter }
    }

    /// Plays a note event on the key. A note-on starts the voices chosen
    /// for its velocity, as a new group, under the layer limit. A note-off
    /// releases the next voice (or, with the damper held, holds its group)
    /// and starts the release voices chosen for its velocity. All-off does
    /// so until no voice is left to release or, with the damper held, until
    /// every group is held. All-killed kills every voice.
    pub fn send_event<SF: SoundfontBase<Spawner = S>, S: VoiceSpawner<Generator = T>>(
        &mut self,
        event: KeyNoteEvent,
        control: &VoiceControlData,
        channel_sf: &ChannelSoundfont<SF>,
        max_layers: Option<usize>,
    )
        requires
            old(self).wf(),
            channel_sf.wf(),
            event matches KeyNoteEvent::On(vel) ==> vel < 128,
            event !is AllKilled ==> old(self).buffer().spec_id_counter() + old(self).buffer()@.len() < usize::MAX,
            event is AllOff ==> forall|v: u8|
                v < 128 ==> #[trigger] chosen_release(
                    channel_sf.soundfonts(),
                    channel_sf.program(),
                    old(self).spec_key(),
                    v,
                ).len() == 0,
        ensures
            final(self).wf(),
            key_event_step(*old(self), *final(self), event, channel_sf.soundfonts(), channel_sf.program(), max_layers),
    {
        let ghost s0 = self.voices@;
        let ghost c0 = self.voices.spec_id_counter();
        let ghost v0 = self.voices.voices();
        proof {
            self.voices.lemma_view_voices();
        }
        match event {
            KeyNoteEvent::On(vel) => {
                let spawners = channel_sf.spawn_voices_attack(self.key, vel);
                let voices = spawn_all(spawners, control);
                let ghost id = (c0 + 1) as usize;
                let ghost vs = voices@;
                proof {
                    assert(group_infos(voices@, id) =~= spawn_infos(spawners@, id));
                    lemma_push_midi(s0, self.voices.held(), id, group_infos(voices@, id), self.voices.spec_options().fade_out_killing, max_layers);
                }
                self.voices.push_voices(voices, max_layers);
                proof {
                    assert(group_infos(vs, id) == spawn_infos(
                        chosen_attack(channel_sf.soundfonts(), channel_sf.program(), self.key, vel),
                        id,
                    ));
                    assert(pushed_voices(v0, vs, id, self.voices.spec_options().fade_out_killing, max_layers)
                        == self.voices.voices());
                    assert(old(self).buffer().voices() == v0);
                    assert(exists|new: Seq<VoiceBase<T>>|
                        group_infos(new, id) == spawn_infos(
                            chosen_attack(channel_sf.soundfonts(), channel_sf.program(), old(self).spec_key(), vel),
                            id,
                        ) && #[trigger] pushed_voices(
                            old(self).buffer().voices(),
                            new,
                            id,
                            old(self).buffer().spec_options().fade_out_killing,
                            max_layers,
                        ) == self.buffer().voices());
                }
            },
            KeyNoteEvent::Off => {
                proof {
                    lemma_first_unreleased_found(s0, 0);
                }
                let vel = self.voices.release_next_voice();
                proof {
                    lemma_release_next_midi(s0);
                }
                if let Some(vel) = vel {
                    let spawners = channel_sf.spawn_voices_release(self.key, vel);
                    let voices = spawn_all(spawners, control);
                    let ghost id = (c0 + 1) as usize;
                    proof {
                        assert(group_infos(voices@, id) =~= spawn_infos(spawners@, id));
                        lemma_push_midi(self.voices@, self.voices.held(), id, group_infos(voices@, id), self.voices.spec_options().fade_out_killing, max_layers);
                    }
                    self.voices.push_voices(voices, max_layers);
                }
            },
            KeyNoteEvent::AllOff => {
                proof {
                    lemma_unreleased_bound(s0);
                }
                let ghost key = self.key;
                assert(event is AllOff);
                assert forall|v: u8| v < 128 implies #[trigger] chosen_release(
                    channel_sf.soundfonts(),
                    channel_sf.program(),
                    key,
                    v,
                ).len() == 0 by {
                    assert(chosen_release(channel_sf.soundfonts(), channel_sf.program(), old(self).spec_key(), v).len()
                        == 0);
                }
                loop
                    invariant_except_break
                        self.wf(),
                        self.key == key,
                        channel_sf.wf(),
                        forall|v: u8|
                            v < 128 ==> #[trigger] chosen_release(channel_sf.soundfonts(), channel_sf.program(), key, v).len()
                                == 0,
                        self.voices.spec_id_counter() + unreleased_count(self.voices@) <= c0 + s0.len(),
                        c0 <= self.voices.spec_id_counter(),
                        c0 + s0.len() < usize::MAX,
                        old(self).voices.spec_damper_held() ==> {
                            &&& self.voices@ == s0
                            &&& self.voices.voices() == old(self).voices.voices()
                            &&& hold_all(s0, self.voices.held()) == hold_all(s0, old(self).voices.held())
                            &&& self.voices.spec_id_counter() == c0
                        },
                        !old(self).voices.spec_damper_held() ==> all_off_result(
                            self.voices@,
                            self.voices.held(),
                            self.voices.spec_id_counter(),
                            old(self).voices.spec_options().fade_out_killing,
                            max_layers,
                        ) == all_off_result(
                            s0,
                            old(self).voices.held(),
                            c0,
                            old(self).voices.spec_options().fade_out_killing,
                            max_layers,
                        ),
                        !old(self).voices.spec_damper_held() ==> all_off_voices(
                            self.voices.voices(),
                            self.voices.spec_id_counter(),
                            old(self).voices.spec_options().fade_out_killing,
                            max_layers,
                        ) == all_off_voices(v0, c0, old(self).voices.spec_options().fade_out_killing, max_layers),
                        s0 == infos(v0),
                        v0 == old(self).voices.voices(),
                        self.voices.spec_damper_held() == old(self).voices.spec_damper_held(),
                        self.voices.spec_options() == old(self).voices.spec_options(),
                        self.last_voice_count == old(self).last_voice_count,
                        self.shared_voice_counter == old(self).shared_voice_counter,
                    ensures
                        self.wf(),
                        self.key == key,
                        self.voices.spec_damper_held() == old(self).voices.spec_damper_held(),
                        self.voices.spec_options() == old(self).voices.spec_options(),
                        self.last_voice_count == old(self).last_voice_count,
                        self.shared_voice_counter == old(self).shared_voice_counter,
                        old(self).voices.spec_damper_held() ==> {
                            &&& self.voices@ == s0
                            &&& self.voices.voices() == old(self).voices.voices()
                            &&& self.voices.held() == hold_all(s0, old(self).voices.held())
                            &&& self.voices.spec_id_counter() == c0
                        },
                        !old(self).voices.spec_damper_held() ==> {
                            &&& (self.voices@, self.voices.held(), self.voices.spec_id_counter()) == all_off_result(
                                s0,
                                old(self).voices.held(),
                                c0,
                                old(self).voices.spec_options().fade_out_killing,
                                max_layers,
                            )
                            &&& self.voices.voices() == all_off_voices(
                                v0,
                                c0,
                                old(self).voices.spec_options().fade_out_killing,
                                max_layers,
                            )
                            &&& forall|j: int| 0 <= j < self.voices@.len() ==> (#[trigger] self.voices@[j]).releasing
                            &&& c0 <= self.voices.spec_id_counter() <= c0 + s0.len()
                        },
                    decreases unreleased_count(self.voices@), unheld_count(self.voices@, self.voices.held()),
                {
                    let ghost s1 = self.voices@;
                    let ghost h1 = self.voices.held();
                    let ghost v1 = self.voices.voices();
                    let ghost c1 = self.voices.spec_id_counter();
                    proof {
                        self.voices.lemma_view_voices();
                        lemma_first_unreleased_found(s1, 0);
                        lemma_release_next_midi(s1);
                        lemma_unreleased_bound(s1);
                    }
                    let before = self.voices.held_count();
                    let vel = self.voices.release_next_voice();
                    match vel {
                        Some(vel) => {
                            proof {
                                lemma_release_next_unreleased(s1);
                                lemma_all_off_step(
                                    s1,
                                    self.voices.held(),
                                    self.voices.spec_id_counter(),
                                    self.voices.spec_options().fade_out_killing,
                                    max_layers,
                                );
                            }
                            let spawners = channel_sf.spawn_voices_release(self.key, vel);
                            let voices = spawn_all(spawners, control);
                            let ghost id = (self.voices.spec_id_counter() + 1) as usize;
                            proof {
                                assert(spawners@.len() == 0);
                                assert(group_infos(voices@, id) =~= Seq::<VoiceInfo>::empty());
                                lemma_push_midi(self.voices@, self.voices.held(), id, group_infos(voices@, id), self.voices.spec_options().fade_out_killing, max_layers);
                                lemma_push_empty_unreleased(self.voices@, self.voices.held(), id, self.voices.spec_options().fade_out_killing, max_layers);
                            }
                            let ghost vs = voices@;
                            self.voices.push_voices(voices, max_layers);
                            proof {
                                self.voices.lemma_view_voices();
                                let fade = self.voices.spec_options().fade_out_killing;
                                assert(vs =~= Seq::<VoiceBase<T>>::empty());
                                let next = pushed_voices(release_next_voices(v1), Seq::empty(), id, fade, max_layers);
                                assert(next == self.voices.voices());
                                assert(unreleased_count(infos(next)) < unreleased_count(infos(v1)));
                                assert(all_off_voices(v1, c1, fade, max_layers) == all_off_voices(
                                    next,
                                    id,
                                    fade,
                                    max_layers,
                                ));
                            }
                        },
                        None => {
                            if self.voices.held_count() == before {
                                proof {
                                    self.voices.lemma_view_voices();
                                }
                                break;
                            }
                            proof {
                                lemma_first_unheld_found(s1, h1, 0);
                                lemma_hold_next(s1, h1);
                            }
                        },
                    }
                }
            },
            KeyNoteEvent::AllKilled => {
                self.voices.kill_all_voices();
            },
        }
    }

    /// Sets the damper (sustain pedal) of the key. Lifting a held damper
    /// releases every voice whose group is held, and empties the held list.
    pub fn set_damper(&mut self, damper: bool)
        requires
            old(self).wf(),
        ensures
            final(self).wf(),
            damper_step(*old(self), *final(self), damper),
    {
        let ghost s0 = self.voices@;
        self.voices.set_damper(damper);
        proof {
            let s1 = self.voices@;
            assert forall|j: int| 0 <= j < s1.len() implies #[trigger] s1[j].velocity < 128 && s1[j].id != 0 by {
                assert(s0[j].velocity < 128);
            }
        }
    }

    /// The voices of the key.
    pub fn voices(&self) -> (r: &VoiceBuffer<T>)
        ensures
            *r == self.buffer(),
    {
        &self.voices
    }

    /// The key (0 to 127).
    pub fn key(&self) -> (r: u8)
        ensures
            r == self.spec_key(),
    {
        self.key
    }

    /// Whether the key has any voice.
    pub fn has_voices(&self) -> (r: bool)
        ensures
            r == (self.buffer()@.len() > 0),
    {
        self.voices.has_voices()
    }

    /// The number of voices of the key.
    pub fn voice_count(&self) -> (r: usize)
        ensures
            r == self.buffer()@.len(),
    {
        self.voices.voice_count()
    }

    /// Write access to the generator of voice `i`, to render it or pass
    /// control data to it. Nothing else changes.
    pub fn generator_mut(&mut self, i: usize) -> (r: &mut T)
        requires
            old(self).wf(),
            i < old(self).buffer()@.len(),
        ensures
            *r == old(self).buffer().voices()[i as int].voice.spec_generator(),
            final(self).wf(),
            final(self).spec_key() == old(self).spec_key(),
            final(self).spec_last_voice_count() == old(self).spec_last_voice_count(),
            final(self).counter() == old(self).counter(),
            final(self).buffer()@ == old(self).buffer()@,
            final(self).buffer().held() == old(self).buffer().held(),
            final(self).buffer().spec_id_counter() == old(self).buffer().spec_id_counter(),
            final(self).buffer().spec_options() == old(self).buffer().spec_options(),
            final(self).buffer().spec_damper_held() == old(self).buffer().spec_damper_held(),
            final(self).buffer().voices()[i as int].voice.spec_generator() == *final(r),
    {
        self.voices.generator_mut(i)
    }

    /// After the voices were rendered: removes the voices that have ended
    /// and moves the channel's shared voice counter by the change in this
    /// key's voice count since the last time.
    pub fn finish_render(&mut self)
        requires
            old(self).wf(),
        ensures
            final(self).wf(),
            final(self).spec_key() == old(self).spec_key(),
            final(self).counter() == old(self).counter(),
            final(self).spec_last_voice_count() == final(self).buffer()@.len(),
            final(self).buffer().held() == old(self).buffer().held(),
            final(self).buffer().spec_id_counter() == old(self).buffer().spec_id_counter(),
            final(self).buffer().spec_options() == old(self).buffer().spec_options(),
            final(self).buffer().spec_damper_held() == old(self).buffer().spec_damper_held(),
            final(self).buffer().voices() == old(self).buffer().voices().filter(unended()),
    {
        let ghost v0 = self.voices.voices();
        proof {
            self.voices.lemma_view_voices();
        }
        self.voices.remove_ended_voices();
        proof {
            self.voices.lemma_view_voices();
            let keep = unended_flags(v0);
            lemma_select_unended(v0);
            let p = |g: GroupVoice<T>| g.info().velocity < 128 && g.info().id != 0;
            assert forall|i: int| 0 <= i < v0.len() implies #[trigger] p(v0[i]) by {
                assert(infos(v0)[i] == v0[i].info());
            }
            lemma_select_keeps(v0, keep, p);
            let s1 = self.voices@;
            assert forall|j: int| 0 <= j < s1.len() implies #[trigger] s1[j].velocity < 128 && s1[j].id != 0 by {
                assert(p(self.voices.voices()[j]));
                assert(s1[j] == self.voices.voices()[j].info());
            }
        }
        let voice_count = self.voices.voice_count();
        let (change, decrease) = count_change(self.last_voice_count, voice_count);
        if decrease {
            self.shared_voice_counter.fetch_sub(change, Ordering::SeqCst);
        } else {
            self.shared_voice_counter.fetch_add(change, Ordering::SeqCst);
        }
        self.last_voice_count = voice_count;
    }

    /// Plays the note events `events` on the key, in order. An event that
    /// would run the group counter past the largest `usize` is dropped.
    pub fn send_events<SF: SoundfontBase<Spawner = S>, S: VoiceSpawner<Generator = T>>(
        &mut self,
        events: &Vec<KeyNoteEvent>,
        control: &VoiceControlData,
        channel_sf: &ChannelSoundfont<SF>,
        max_layers: Option<usize>,
    )
        requires
            old(self).wf(),
            channel_sf.wf(),
            forall|i: int| 0 <= i < events@.len() ==> (#[trigger] events@[i] matches KeyNoteEvent::On(v) ==> v < 128),
            (exists|i: int| 0 <= i < events@.len() && #[trigger] events@[i] is AllOff) ==> forall|v: u8|
                v < 128 ==> #[trigger] chosen_release(
                    channel_sf.soundfonts(),
                    channel_sf.program(),
                    old(self).spec_key(),
                    v,
                ).len() == 0,
        ensures
            final(self).wf(),
            final(self).spec_key() == old(self).spec_key(),
            final(self).counter() == old(self).counter(),
            key_events_applied(
                *old(self),
                *final(self),
                events@,
                channel_sf.soundfonts(),
                channel_sf.program(),
                max_layers,
            ),
    {
        let ghost o = *self;
        let n = events.len();
        let mut i: usize = 0;
        proof {
            lemma_events_empty(o, channel_sf.soundfonts(), channel_sf.program(), max_layers);
            assert(events@.take(0) =~= Seq::<KeyNoteEvent>::empty());
        }
        while i < n
            invariant
                n == events@.len(),
                0 <= i <= n,
                self.wf(),
                channel_sf.wf(),
                self.spec_key() == o.spec_key(),
                self.counter() == o.counter(),
                forall|j: int| 0 <= j < events@.len() ==> (#[trigger] events@[j] matches KeyNoteEvent::On(v) ==> v < 128),
                (exists|j: int| 0 <= j < events@.len() && #[trigger] events@[j] is AllOff) ==> forall|v: u8|
                    v < 128 ==> #[trigger] chosen_release(channel_sf.soundfonts(), channel_sf.program(), o.spec_key(), v).len()
                        == 0,
                key_events_applied(
                    o,
                    *self,
                    events@.take(i as int),
                    channel_sf.soundfonts(),
                    channel_sf.program(),
                    max_layers,
                ),
            decreases n - i,
        {
            let event = events[i];
            let ghost m = *self;
            let c = self.voices.id_counter();
            let len = self.voices.voice_count();
            let fits = match event {
                KeyNoteEvent::AllKilled => true,
                _ => c < usize::MAX && len < usize::MAX - c,
            };
            if fits {
                proof {
                    if event is AllOff {
                        assert(events@[i as int] is AllOff);
                    }
                }
                self.send_event(event, control, channel_sf, max_layers);
            }
            proof {
                let t = events@.take(i + 1);
                assert(t.drop_last() =~= events@.take(i as int));
                assert(t.last() == event);
                assert(key_events_applied(o, m, t.drop_last(), channel_sf.soundfonts(), channel_sf.program(), max_layers));
                assert(fits == event_fits(m, event));
                assert(m.wf());
                assert(event_step_or_skip(m, *self, event, channel_sf.soundfonts(), channel_sf.program(), max_layers));
                lemma_events_push(o, m, *self, events@.take(i as int), event, channel_sf.soundfonts(), channel_sf.program(), max_layers);
                assert(events@.take(i as int).push(event) =~= t);
            }
            i = i + 1;
        }
        assert(events@.take(n as int) =~= events@);
    }
}


/// A key of a channel: its voices and the note events waiting for the
/// next render.
pub struct Key<T> {
    pub data: KeyData<T>,
    pub event_cache: Vec<KeyNoteEvent>,
}

impl<T: VoiceGeneratorBase> Key<T> {
    /// The key `key` with no voices and no waiting events.
    pub fn new(key: u8, shared_voice_counter: Arc<AtomicU64>, options: ChannelInitOptions) -> (r: Self)
        requires
            key < 128,
        ensures
            r.data.wf(),
            r.data.spec_key() == key,
            r.data.buffer()@ == Seq::<VoiceInfo>::empty(),
            r.data.buffer().held() == Seq::<usize>::empty(),
            r.data.buffer().spec_id_counter() == 0,
            !r.data.buffer().spec_damper_held(),
            r.data.buffer().spec_options() == options,
            r.data.counter() == shared_voice_counter,
            r.event_cache@ == Seq::<KeyNoteEvent>::empty(),
    {
        Key { data: KeyData::new(key, shared_voice_counter, options), event_cache: Vec::new() }
    }
}

/// Voices that are not releasing and whose group is not in `held`.
pub open spec fn pred_unheld(held: Seq<usize>) -> spec_fn(VoiceInfo) -> bool {
    |v: VoiceInfo| !v.releasing && !held.contains(v.id)
}

/// Number of voices that are neither releasing nor held.
#[verifier::opaque]
pub open spec fn unheld_count(s: Seq<VoiceInfo>, held: Seq<usize>) -> nat {
    count_where(s, pred_unheld(held), s.len() as int)
}

proof fn lemma_count_pred_mono(s: Seq<VoiceInfo>, p: spec_fn(VoiceInfo) -> bool, q: spec_fn(VoiceInfo) -> bool, n: int)
    requires
        0 <= n <= s.len(),
        forall|j: int| 0 <= j < n ==> (q(s[j]) ==> p(s[j])),
    ensures
        count_where(s, q, n) <= count_where(s, p, n),
        (exists|j: int| 0 <= j < n && p(s[j]) && !q(s[j])) ==> count_where(s, q, n) < count_where(s, p, n),
    decreases n,
{
    if n > 0 {
        lemma_count_pred_mono(s, p, q, n - 1);
        if exists|j: int| 0 <= j < n && p(s[j]) && !q(s[j]) {
            let j = choose|j: int| 0 <= j < n && p(s[j]) && !q(s[j]);
            if j < n - 1 {
                assert(exists|j: int| 0 <= j < n - 1 && p(s[j]) && !q(s[j]));
            }
        }
    }
}

/// Where the first voice neither releasing nor held from `i` on stands.
pub proof fn lemma_first_unheld_found(s: Seq<VoiceInfo>, held: Seq<usize>, i: int)
    requires
        0 <= i <= s.len(),
    ensures
        i <= first_unheld_from(s, held, i) <= s.len(),
        first_unheld_from(s, held, i) < s.len() ==> !s[first_unheld_from(s, held, i)].releasing && !held.contains(
            s[first_unheld_from(s, held, i)].id,
        ),
    decreases s.len() - i,
{
    if i < s.len() {
        lemma_first_unheld_found(s, held, i + 1);
    }
}

proof fn lemma_first_unheld_le(s: Seq<VoiceInfo>, held: Seq<usize>, i: int, j: int)
    requires
        0 <= i <= j < s.len(),
        !s[j].releasing && !held.contains(s[j].id),
    ensures
        first_unheld_from(s, held, i) <= j,
    decreases j - i,
{
    if i < j {
        lemma_first_unheld_le(s, held, i + 1, j);
    }
}

/// Holding the group of the first voice neither releasing nor held leaves
/// fewer such voices.
pub proof fn lemma_hold_next(s: Seq<VoiceInfo>, held: Seq<usize>)
    requires
        first_unheld_from(s, held, 0) < s.len(),
    ensures
        unheld_count(s, held.push(s[first_unheld_from(s, held, 0)].id)) < unheld_count(s, held),
{
    reveal(unheld_count);
    lemma_first_unheld_found(s, held, 0);
    let k = first_unheld_from(s, held, 0);
    let h2 = held.push(s[k].id);
    assert forall|j: int| 0 <= j < s.len() implies (pred_unheld(h2)(s[j]) ==> pred_unheld(held)(s[j])) by {
        if held.contains(s[j].id) {
            let m = choose|m: int| 0 <= m < held.len() && held[m] == s[j].id;
            assert(h2[m] == held[m]);
        }
    }
    assert(h2[held.len() as int] == s[k].id);
    assert(pred_unheld(held)(s[k]) && !pred_unheld(h2)(s[k]));
    lemma_count_pred_mono(s, pred_unheld(held), pred_unheld(h2), s.len() as int);
}

/// The groups held after all-off with the damper held: while a voice is
/// neither releasing nor held, the group of the first such voice is held.
/// (The recursion stops on its own guard only if holding left as many such
/// voices as before, which `lemma_hold_next` rules out.)
pub open spec fn hold_all(s: Seq<VoiceInfo>, held: Seq<usize>) -> Seq<usize>
    decreases unheld_count(s, held),
{
    let k = first_unheld_from(s, held, 0);
    if k < s.len() {
        let h2 = held.push(s[k].id);
        if unheld_count(s, h2) < unheld_count(s, held) {
            hold_all(s, h2)
        } else {
            held
        }
    } else {
        held
    }
}

/// All-off with the damper held leaves every voice releasing or held.
pub proof fn lemma_hold_all_holds(s: Seq<VoiceInfo>, held: Seq<usize>)
    ensures
        forall|j: int|
            0 <= j < s.len() ==> #[trigger] s[j].releasing || hold_all(s, held).contains(s[j].id),
    decreases unheld_count(s, held),
{
    let k = first_unheld_from(s, held, 0);
    lemma_first_unheld_found(s, held, 0);
    if k < s.len() {
        lemma_hold_next(s, held);
        lemma_hold_all_holds(s, held.push(s[k].id));
    } else {
        assert forall|j: int| 0 <= j < s.len() implies #[trigger] s[j].releasing || hold_all(s, held).contains(
            s[j].id,
        ) by {
            if !s[j].releasing && !held.contains(s[j].id) {
                lemma_first_unheld_le(s, held, 0, j);
            }
        }
    }
}


/// The voices of a key after all-off with the damper up, from voices `v`
/// and group counter `c` (see `all_off_result`): while a voice is not
/// releasing, the next one is released and an empty group of release
/// voices is pushed under the limit `max`.
pub open spec fn all_off_voices<T: VoiceGeneratorBase>(
    v: Seq<GroupVoice<T>>,
    c: usize,
    fade: bool,
    max: Option<usize>,
) -> Seq<GroupVoice<T>>
    decreases unreleased_count(infos(v)),
{
    if first_unreleased_from(infos(v), 0) < v.len() {
        let id = (c + 1) as usize;
        let next = pushed_voices(release_next_voices(v), Seq::empty(), id, fade, max);
        if unreleased_count(infos(next)) < unreleased_count(infos(v)) {
            all_off_voices(next, id, fade, max)
        } else {
            v
        }
    } else {
        v
    }
}
} // verus!