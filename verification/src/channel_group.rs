use vstd::prelude::*;

use crate::audio_stream::AudioStreamParams;
use crate::channel::{config_step, event_step, VoiceChannel};
use crate::helpers::arc_clone;
use std::sync::Arc;
use crate::config::{ChannelGroupConfig, SynthFormat};
use crate::control::ControlAction;
use crate::events::{ChannelAudioEvent, ChannelConfigEvent, ChannelEvent, SynthEvent};
use crate::soundfont::SoundfontBase;
use crate::voice::VoiceGeneratorBase;

verus! {

/// The number of cached events above which the events are handed to the
/// channels at once, without waiting for the next render.
pub const MAX_EVENT_CACHE_SIZE: u32 = 1048576;

/// The number of channels of a synthesizer format: 16 for standard MIDI.
pub open spec fn format_channel_count(format: SynthFormat) -> u32 {
    match format {
        SynthFormat::MidiSingle => 16,
        SynthFormat::Custom { channels } => channels,
    }
}

/// The number of channels of a synthesizer format: 16 for standard MIDI.
pub fn channel_count_for(format: SynthFormat) -> (r: u32)
    ensures
        r == format_channel_count(format),
{
    match format {
        SynthFormat::MidiSingle => 16,
        SynthFormat::Custom { channels } => channels,
    }
}

/// The total number of events in the lists.
pub open spec fn total_len(caches: Seq<Seq<ChannelAudioEvent>>) -> nat
    decreases caches.len(),
{
    if caches.len() == 0 {
        0
    } else {
        total_len(caches.drop_last()) + caches.last().len()
    }
}

/// `n` is channel `o` after the audio events `events`, in order, which
/// returned the actions `actions`.
pub open spec fn channel_events_applied<SF: SoundfontBase, T: VoiceGeneratorBase>(
    o: VoiceChannel<SF, T>,
    n: VoiceChannel<SF, T>,
    events: Seq<ChannelAudioEvent>,
    actions: Seq<ControlAction>,
) -> bool {
    &&& actions.len() == events.len()
    &&& exists|states: Seq<VoiceChannel<SF, T>>|
        #![trigger states.len(), states[0]]
        {
            &&& states.len() == events.len() + 1
            &&& states[0] == o
            &&& states[events.len() as int] == n
            &&& forall|i: int|
                0 <= i < events.len() ==> #[trigger] states[i].wf() && event_step(
                    states[i],
                    states[i + 1],
                    ChannelEvent::Audio(events[i]),
                    actions[i],
                )
        }
}

/// Playing no event leaves the channel as it is.
proof fn lemma_channel_events_empty<SF: SoundfontBase, T: VoiceGeneratorBase>(o: VoiceChannel<SF, T>)
    ensures
        channel_events_applied(o, o, Seq::empty(), Seq::empty()),
{
    let states = seq![o];
    assert(states.len() == 1 && states[0] == o);
}

/// Playing one more event extends the events played.
proof fn lemma_channel_events_push<SF: SoundfontBase, T: VoiceGeneratorBase>(
    o: VoiceChannel<SF, T>,
    m: VoiceChannel<SF, T>,
    n: VoiceChannel<SF, T>,
    events: Seq<ChannelAudioEvent>,
    actions: Seq<ControlAction>,
    e: ChannelAudioEvent,
    a: ControlAction,
)
    requires
        channel_events_applied(o, m, events, actions),
        m.wf(),
        event_step(m, n, ChannelEvent::Audio(e), a),
    ensures
        channel_events_applied(o, n, events.push(e), actions.push(a)),
{
    let states = choose|states: Seq<VoiceChannel<SF, T>>|
        #![trigger states.len(), states[0]]
        {
            &&& states.len() == events.len() + 1
            &&& states[0] == o
            &&& states[events.len() as int] == m
            &&& forall|i: int|
                0 <= i < events.len() ==> #[trigger] states[i].wf() && event_step(
                    states[i],
                    states[i + 1],
                    ChannelEvent::Audio(events[i]),
                    actions[i],
                )
        };
    let s2 = states.push(n);
    let t = events.push(e);
    let b = actions.push(a);
    assert forall|i: int| 0 <= i < t.len() implies #[trigger] s2[i].wf() && event_step(
        s2[i],
        s2[i + 1],
        ChannelEvent::Audio(t[i]),
        b[i],
    ) by {
        if i < events.len() {
            assert(s2[i] == states[i]);
            assert(s2[i + 1] == states[i + 1]);
            assert(t[i] == events[i]);
            assert(b[i] == actions[i]);
            assert(states[i].wf() && event_step(states[i], states[i + 1], ChannelEvent::Audio(events[i]), actions[i]));
        } else {
            assert(s2[i] == m);
            assert(s2[i + 1] == n);
            assert(t[i] == e);
            assert(b[i] == a);
        }
    }
    assert(s2.len() == t.len() + 1 && s2[0] == o && s2[t.len() as int] == n);
}

/// The actions returned, per channel.
pub open spec fn actions_view(a: Vec<Vec<ControlAction>>) -> Seq<Seq<ControlAction>> {
    a@.map_values(|v: Vec<ControlAction>| v@)
}

/// `n` are channels `o` after each played its audio events `caches`,
/// returning `actions`.
pub open spec fn all_flushed<SF: SoundfontBase, T: VoiceGeneratorBase>(
    o: Seq<VoiceChannel<SF, T>>,
    n: Seq<VoiceChannel<SF, T>>,
    caches: Seq<Seq<ChannelAudioEvent>>,
    actions: Seq<Seq<ControlAction>>,
) -> bool {
    &&& n.len() == o.len()
    &&& actions.len() == o.len()
    &&& forall|c: int| 0 <= c < o.len() ==> #[trigger] channel_events_applied(o[c], n[c], caches[c], actions[c])
}

/// Two configuration events that mean the same: the same soundfonts, layer
/// count or percussion mode.
pub open spec fn same_config<SF>(a: ChannelConfigEvent<SF>, b: ChannelConfigEvent<SF>) -> bool {
    match (a, b) {
        (ChannelConfigEvent::SetSoundfonts(x), ChannelConfigEvent::SetSoundfonts(y)) => x@ == y@,
        (ChannelConfigEvent::SetLayerCount(x), ChannelConfigEvent::SetLayerCount(y)) => x == y,
        (ChannelConfigEvent::SetPercussionMode(x), ChannelConfigEvent::SetPercussionMode(y)) => x == y,
        _ => false,
    }
}

/// A copy of a configuration event, sharing its soundfonts.
pub fn clone_config<SF>(e: &ChannelConfigEvent<SF>) -> (r: ChannelConfigEvent<SF>)
    ensures
        same_config(r, *e),
{
    match e {
        ChannelConfigEvent::SetSoundfonts(v) => {
            let mut out: Vec<Arc<SF>> = Vec::new();
            let mut i: usize = 0;
            while i < v.len()
                invariant
                    0 <= i <= v@.len(),
                    out@ == v@.take(i as int),
                decreases v@.len() - i,
            {
                out.push(arc_clone(&v[i]));
                i = i + 1;
                assert(out@ =~= v@.take(i as int));
            }
            assert(out@ =~= v@);
            ChannelConfigEvent::SetSoundfonts(out)
        },
        ChannelConfigEvent::SetLayerCount(c) => ChannelConfigEvent::SetLayerCount(*c),
        ChannelConfigEvent::SetPercussionMode(b) => ChannelConfigEvent::SetPercussionMode(*b),
    }
}

/// `n` is synthesizer `o` after `event`, which returned `r`. Audio events
/// wait in the lists; when more than `MAX_EVENT_CACHE_SIZE` wait, all are
/// played at once and their actions returned. Configuration events are
/// played at once.
pub open spec fn group_event_step<SF: SoundfontBase, T: VoiceGeneratorBase>(
    o: ChannelGroup<SF, T>,
    n: ChannelGroup<SF, T>,
    event: SynthEvent<SF>,
    r: Option<Vec<Vec<ControlAction>>>,
) -> bool {
    &&& n.spec_audio_params() == o.spec_audio_params()
    &&& match event {
        SynthEvent::Channel(c, ChannelEvent::Audio(e)) => {
            let pushed = o.caches().update(c as int, o.caches()[c as int].push(e));
            cached_or_flushed(o, n, pushed, o.spec_cached_event_count() + 1, r)
        },
        SynthEvent::AllChannels(ChannelEvent::Audio(e)) => {
            let pushed = o.caches().map_values(|v: Seq<ChannelAudioEvent>| v.push(e));
            cached_or_flushed(o, n, pushed, o.spec_cached_event_count() + o.channels().len(), r)
        },
        SynthEvent::Channel(c, ChannelEvent::Config(e)) => {
            &&& r is None
            &&& n.caches() == o.caches()
            &&& n.spec_cached_event_count() == o.spec_cached_event_count()
            &&& n.channels().len() == o.channels().len()
            &&& config_step(o.channels()[c as int], n.channels()[c as int], e)
            &&& forall|j: int| 0 <= j < o.channels().len() && j != c ==> #[trigger] n.channels()[j] == o.channels()[j]
        },
        SynthEvent::AllChannels(ChannelEvent::Config(e)) => {
            &&& r is None
            &&& n.caches() == o.caches()
            &&& n.spec_cached_event_count() == o.spec_cached_event_count()
            &&& n.channels().len() == o.channels().len()
            &&& forall|j: int| 0 <= j < o.channels().len() ==> #[trigger] config_step(o.channels()[j], n.channels()[j], e)
        },
    }
}

/// With the lists `pushed` holding `count` events: if more than
/// `MAX_EVENT_CACHE_SIZE`, `n` has played them all (lists empty) and `r`
/// holds the actions; else `n` keeps them waiting and `r` is `None`.
pub open spec fn cached_or_flushed<SF: SoundfontBase, T: VoiceGeneratorBase>(
    o: ChannelGroup<SF, T>,
    n: ChannelGroup<SF, T>,
    pushed: Seq<Seq<ChannelAudioEvent>>,
    count: int,
    r: Option<Vec<Vec<ControlAction>>>,
) -> bool {
    if count > MAX_EVENT_CACHE_SIZE {
        &&& r matches Some(a)
        &&& all_flushed(o.channels(), n.channels(), pushed, actions_view(a))
        &&& n.spec_cached_event_count() == 0
        &&& n.caches().len() == o.caches().len()
        &&& forall|j: int| 0 <= j < n.caches().len() ==> (#[trigger] n.caches()[j]).len() == 0
    } else {
        &&& r is None
        &&& n.caches() == pushed
        &&& n.spec_cached_event_count() == count
        &&& n.channels() == o.channels()
    }
}

/// Plays the audio events `events` on `channel`, in order; returns the
/// action of each.
fn play_events<SF: SoundfontBase, T: VoiceGeneratorBase>(
    channel: &mut VoiceChannel<SF, T>,
    events: &Vec<ChannelAudioEvent>,
) -> (r: Vec<ControlAction>)
    requires
        old(channel).wf(),
    ensures
        final(channel).wf(),
        channel_events_applied(*old(channel), *final(channel), events@, r@),
{
    let ghost oc = *channel;
    proof {
        lemma_channel_events_empty(oc);
        assert(events@.take(0) =~= Seq::<ChannelAudioEvent>::empty());
    }
    let mut acts: Vec<ControlAction> = Vec::new();
    let mut i: usize = 0;
    while i < events.len()
        invariant
            0 <= i <= events@.len(),
            channel.wf(),
            acts@.len() == i,
            channel_events_applied(oc, *channel, events@.take(i as int), acts@),
        decreases events@.len() - i,
    {
        let ghost m = *channel;
        let a = channel.process_event(ChannelEvent::Audio(events[i]));
        proof {
            lemma_channel_events_push(oc, m, *channel, events@.take(i as int), acts@, events@[i as int], a);
            assert(events@.take(i as int).push(events@[i as int]) =~= events@.take(i + 1));
        }
        acts.push(a);
        i = i + 1;
    }
    proof {
        assert(events@.take(events@.len() as int) =~= events@);
    }
    acts
}

/// A MIDI synthesizer: a group of channels, and the audio events waiting
/// for each channel until the next render (or until too many are waiting).
pub struct ChannelGroup<SF: SoundfontBase, T> {
    cached_event_count: u32,
    channel_events_cache: Vec<Vec<ChannelAudioEvent>>,
    channels: Vec<VoiceChannel<SF, T>>,
    audio_params: AudioStreamParams,
}

impl<SF: SoundfontBase, T: VoiceGeneratorBase> ChannelGroup<SF, T> {
    /// The channels, channel 0 first.
    pub closed spec fn channels(&self) -> Seq<VoiceChannel<SF, T>> {
        self.channels@
    }

    /// The audio events waiting for each channel.
    pub closed spec fn caches(&self) -> Seq<Seq<ChannelAudioEvent>> {
        self.channel_events_cache@.map_values(|v: Vec<ChannelAudioEvent>| v@)
    }

    /// The number of events waiting.
    pub closed spec fn spec_cached_event_count(&self) -> u32 {
        self.cached_event_count
    }

    pub closed spec fn spec_audio_params(&self) -> AudioStreamParams {
        self.audio_params
    }

    /// One event list per channel, every channel consistent, and the count
    /// of waiting events exact.
    pub closed spec fn consistent(&self) -> bool {
        &&& self.channel_events_cache@.len() == self.channels@.len()
        &&& self.channels@.len() <= u32::MAX - MAX_EVENT_CACHE_SIZE
        &&& forall|c: int| 0 <= c < self.channels@.len() ==> (#[trigger] self.channels@[c]).wf()
        &&& self.cached_event_count == total_len(self.caches())
    }

    /// Consistent, with no more events waiting than the cache size.
    pub closed spec fn wf(&self) -> bool {
        &&& self.consistent()
        &&& self.cached_event_count <= MAX_EVENT_CACHE_SIZE
    }

    /// A consistent synthesizer has one list of waiting events per
    /// channel, every channel consistent, and counts exactly the events
    /// waiting; a well-formed one has no more waiting than the cache size.
    pub proof fn lemma_consistent(&self)
        requires
            self.consistent(),
        ensures
            self.caches().len() == self.channels().len(),
            self.channels().len() <= u32::MAX - MAX_EVENT_CACHE_SIZE,
            forall|c: int| 0 <= c < self.channels().len() ==> (#[trigger] self.channels()[c]).wf(),
            self.spec_cached_event_count() == total_len(self.caches()),
            self.wf() ==> self.spec_cached_event_count() <= MAX_EVENT_CACHE_SIZE,
    {
    }

    /// A well-formed synthesizer is consistent.
    pub proof fn lemma_wf_consistent(&self)
        requires
            self.wf(),
        ensures
            self.consistent(),
    {
    }

    /// A synthesizer with the channels of `config.format`, each new (no
    /// voices, no soundfonts, program (0, 0)); in the standard MIDI format
    /// channel 10 (index 9) plays percussion.
    pub fn new(config: ChannelGroupConfig) -> (r: Self)
        requires
            format_channel_count(config.format) <= u32::MAX - MAX_EVENT_CACHE_SIZE,
        ensures
            r.wf(),
            r.channels().len() == format_channel_count(config.format),
            r.caches().len() == r.channels().len(),
            r.spec_cached_event_count() == 0,
            r.spec_audio_params() == config.audio_params,
            forall|c: int| 0 <= c < r.caches().len() ==> (#[trigger] r.caches()[c]).len() == 0,
            forall|c: int|
                0 <= c < r.channels().len() ==> {
                    &&& (#[trigger] r.channels()[c]).spec_params().percussion == (config.format is MidiSingle && c == 9)
                    &&& r.channels()[c].spec_params().layers == Some(4usize)
                    &&& r.channels()[c].spec_params().program.bank == 0
                    &&& r.channels()[c].spec_params().program.preset == 0
                    &&& r.channels()[c].spec_params().channel_sf.soundfonts().len() == 0
                    &&& r.channels()[c].spec_stream_params() == config.audio_params
                    &&& forall|k: int| 0 <= k < 128 ==> (#[trigger] r.channels()[c].caches()[k]).len() == 0
                    &&& forall|k: int| 0 <= k < 128 ==> (#[trigger] r.channels()[c].datas()[k]).buffer()@.len() == 0
                },
    {
        let count = channel_count_for(config.format);
        let midi = match config.format {
            SynthFormat::MidiSingle => true,
            SynthFormat::Custom { .. } => false,
        };
        let mut channels: Vec<VoiceChannel<SF, T>> = Vec::new();
        let mut channel_events_cache: Vec<Vec<ChannelAudioEvent>> = Vec::new();
        let mut i: u32 = 0;
        while i < count
            invariant
                0 <= i <= count,
                count == format_channel_count(config.format),
                midi == (config.format is MidiSingle),
                channels@.len() == i,
                channel_events_cache@.len() == i,
                forall|c: int| 0 <= c < i ==> (#[trigger] channel_events_cache@[c])@.len() == 0,
                forall|c: int|
                    0 <= c < i ==> {
                        &&& (#[trigger] channels@[c]).wf()
                        &&& channels@[c].spec_params().percussion == (midi && c == 9)
                        &&& channels@[c].spec_params().layers == Some(4usize)
                        &&& channels@[c].spec_params().program.bank == 0
                        &&& channels@[c].spec_params().program.preset == 0
                        &&& channels@[c].spec_params().channel_sf.soundfonts().len() == 0
                        &&& channels@[c].spec_stream_params() == config.audio_params
                        &&& forall|k: int| 0 <= k < 128 ==> (#[trigger] channels@[c].caches()[k]).len() == 0
                        &&& forall|k: int| 0 <= k < 128 ==> (#[trigger] channels@[c].datas()[k]).buffer()@.len() == 0
                    },
            decreases count - i,
        {
            let mut channel: VoiceChannel<SF, T> = VoiceChannel::new(config.channel_init_options, config.audio_params);
            if midi && i == 9 {
                channel.process_event(ChannelEvent::Config(ChannelConfigEvent::SetPercussionMode(true)));
            }
            channels.push(channel);
            channel_events_cache.push(Vec::new());
            i = i + 1;
        }
        let r = ChannelGroup { cached_event_count: 0, channel_events_cache, channels, audio_params: config.audio_params };
        proof {
            lemma_total_all_empty(r.caches());
        }
        r
    }
}

/// The total of lists that are all empty is 0.
proof fn lemma_total_all_empty(caches: Seq<Seq<ChannelAudioEvent>>)
    requires
        forall|c: int| 0 <= c < caches.len() ==> (#[trigger] caches[c]).len() == 0,
    ensures
        total_len(caches) == 0,
    decreases caches.len(),
{
    if caches.len() > 0 {
        assert forall|c: int| 0 <= c < caches.drop_last().len() implies (#[trigger] caches.drop_last()[c]).len() == 0 by {
            assert(caches.drop_last()[c] == caches[c]);
        }
        lemma_total_all_empty(caches.drop_last());
    }
}

/// When the total is 0, every list is empty.
proof fn lemma_total_zero(caches: Seq<Seq<ChannelAudioEvent>>)
    requires
        total_len(caches) == 0,
    ensures
        forall|c: int| 0 <= c < caches.len() ==> (#[trigger] caches[c]).len() == 0,
    decreases caches.len(),
{
    if caches.len() > 0 {
        lemma_total_zero(caches.drop_last());
        assert forall|c: int| 0 <= c < caches.len() implies (#[trigger] caches[c]).len() == 0 by {
            if c < caches.len() - 1 {
                assert(caches[c] == caches.drop_last()[c]);
            }
        }
    }
}

/// Replacing list `c` changes the total by the change in its length.
proof fn lemma_total_update(caches: Seq<Seq<ChannelAudioEvent>>, c: int, v: Seq<ChannelAudioEvent>)
    requires
        0 <= c < caches.len(),
    ensures
        total_len(caches.update(c, v)) == total_len(caches) - caches[c].len() + v.len(),
    decreases caches.len(),
{
    let u = caches.update(c, v);
    if c == caches.len() - 1 {
        assert(u.drop_last() =~= caches.drop_last());
    } else {
        assert(u.drop_last() =~= caches.drop_last().update(c, v));
        lemma_total_update(caches.drop_last(), c, v);
    }
}


impl<SF: SoundfontBase, T: VoiceGeneratorBase> ChannelGroup<SF, T> {
    /// Plays the audio events waiting for each channel, in order, and
    /// empties the lists; returns, per channel, the action of each event.
    pub fn flush_events(&mut self) -> (r: Vec<Vec<ControlAction>>)
        requires
            old(self).consistent(),
        ensures
            final(self).wf(),
            all_flushed(old(self).channels(), final(self).channels(), old(self).caches(), actions_view(r)),
            final(self).spec_cached_event_count() == 0,
            final(self).caches().len() == old(self).caches().len(),
            forall|j: int| 0 <= j < final(self).caches().len() ==> (#[trigger] final(self).caches()[j]).len() == 0,
            final(self).spec_audio_params() == old(self).spec_audio_params(),
    {
        let ghost o = *self;
        let n = self.channels.len();
        let mut out: Vec<Vec<ControlAction>> = Vec::new();
        let mut c: usize = 0;
        while c < n
            invariant
                n == o.channels@.len(),
                0 <= c <= n,
                o.consistent(),
                self.channels@.len() == n,
                self.channel_events_cache@.len() == n,
                self.audio_params == o.audio_params,
                out@.len() == c,
                forall|j: int|
                    0 <= j < c ==> {
                        &&& (#[trigger] self.channels@[j]).wf()
                        &&& self.channel_events_cache@[j]@.len() == 0
                        &&& channel_events_applied(o.channels@[j], self.channels@[j], o.caches()[j], out@[j]@)
                    },
                forall|j: int| c <= j < n ==> #[trigger] self.channels@[j] == o.channels@[j],
                forall|j: int| c <= j < n ==> #[trigger] self.channel_events_cache@[j] == o.channel_events_cache@[j],
            decreases n - c,
        {
            let ghost chs0 = self.channels@;
            let ghost cache0 = self.channel_events_cache@;
            let mut events: Vec<ChannelAudioEvent> = Vec::new();
            self.channel_events_cache.set_and_swap(c, &mut events);
            let ghost cache1 = self.channel_events_cache@;
            proof {
                assert(o.caches()[c as int] == events@);
            }
            let channel = &mut self.channels[c];
            let acts = play_events(channel, &events);
            proof {
                assert forall|j: int| c < j < n implies #[trigger] self.channels@[j] == o.channels@[j] by {
                    assert(chs0[j] == o.channels@[j]);
                }
                assert forall|j: int| c < j < n implies #[trigger] self.channel_events_cache@[j]
                    == o.channel_events_cache@[j] by {
                    assert(cache1[j] == cache0[j]);
                    assert(cache0[j] == o.channel_events_cache@[j]);
                }
            }
            out.push(acts);
            c = c + 1;
        }
        self.cached_event_count = 0;
        proof {
            assert forall|j: int| 0 <= j < self.caches().len() implies (#[trigger] self.caches()[j]).len() == 0 by {
                assert(self.channels@[j].wf());
                assert(self.caches()[j] == self.channel_events_cache@[j]@);
            }
            lemma_total_all_empty(self.caches());
            assert forall|j: int| 0 <= j < n implies #[trigger] channel_events_applied(
                o.channels()[j],
                self.channels()[j],
                o.caches()[j],
                actions_view(out)[j],
            ) by {
                assert(self.channels@[j].wf());
                assert(actions_view(out)[j] == out@[j]@);
            }
        }
        out
    }

    /// The number of channels.
    pub fn channel_count(&self) -> (r: usize)
        ensures
            r == self.channels().len(),
    {
        self.channels.len()
    }

    /// The parameters of the audio the synthesizer renders.
    pub fn stream_params(&self) -> (r: AudioStreamParams)
        ensures
            r == self.spec_audio_params(),
    {
        self.audio_params
    }

    /// The number of active voices over all channels, from their shared
    /// counters (which the rendering threads update; what they hold is not
    /// stated here).
    pub fn voice_count(&self) -> (r: u64) {
        let mut total: u64 = 0;
        let mut c: usize = 0;
        while c < self.channels.len()
            invariant
                0 <= c <= self.channels@.len(),
            decreases self.channels@.len() - c,
        {
            let stats = self.channels[c].get_channel_stats();
            total = total.wrapping_add(stats.voice_count());
            c = c + 1;
        }
        total
    }

    /// Channel `c`.
    pub fn channel(&self, c: usize) -> (r: &VoiceChannel<SF, T>)
        requires
            c < self.channels().len(),
        ensures
            *r == self.channels()[c as int],
    {
        &self.channels[c]
    }

    /// The number of audio events waiting.
    pub fn cached_event_count(&self) -> (r: u32)
        ensures
            r == self.spec_cached_event_count(),
    {
        self.cached_event_count
    }

    /// The audio events waiting for channel `c`.
    pub fn channel_events(&self, c: usize) -> (r: &Vec<ChannelAudioEvent>)
        requires
            self.wf(),
            c < self.channels().len(),
        ensures
            r@ == self.caches()[c as int],
    {
        &self.channel_events_cache[c]
    }

    /// Write access to channel `c`, to render it. The synthesizer stays
    /// consistent if the channel does.
    pub fn channel_mut(&mut self, c: usize) -> (r: &mut VoiceChannel<SF, T>)
        requires
            old(self).wf(),
            c < old(self).channels().len(),
        ensures
            *r == old(self).channels()[c as int],
            final(self).channels() == old(self).channels().update(c as int, *final(r)),
            final(self).caches() == old(self).caches(),
            final(self).spec_cached_event_count() == old(self).spec_cached_event_count(),
            final(self).spec_audio_params() == old(self).spec_audio_params(),
            final(r).wf() ==> final(self).wf(),
    {
        let r = &mut self.channels[c];
        r
    }

    /// Write access to all channels at once, to render them side by side.
    /// The synthesizer stays consistent if every channel does.
    pub fn channels_mut(&mut self) -> (r: &mut [VoiceChannel<SF, T>])
        requires
            old(self).wf(),
        ensures
            r@ == old(self).channels(),
            final(self).channels() == final(r)@,
            final(self).caches() == old(self).caches(),
            final(self).spec_cached_event_count() == old(self).spec_cached_event_count(),
            final(self).spec_audio_params() == old(self).spec_audio_params(),
            final(r)@.len() == old(self).channels().len() && (forall|j: int|
                0 <= j < final(r)@.len() ==> (#[trigger] final(r)@[j]).wf()) ==> final(self).wf(),
    {
        self.channels.as_mut_slice()
    }

    /// Sends an event to the synthesizer (see `group_event_step`).
    pub fn send_event(&mut self, event: SynthEvent<SF>) -> (r: Option<Vec<Vec<ControlAction>>>)
        requires
            old(self).wf(),
            event matches SynthEvent::Channel(c, _) ==> c < old(self).channels().len(),
        ensures
            final(self).wf(),
            final(self).channels().len() == old(self).channels().len(),
            final(self).caches().len() == final(self).channels().len(),
            group_event_step(*old(self), *final(self), event, r),
    {
        let ghost o = *self;
        match event {
            SynthEvent::Channel(c, ChannelEvent::Audio(e)) => {
                let ci = c as usize;
                let mut v: Vec<ChannelAudioEvent> = Vec::new();
                self.channel_events_cache.set_and_swap(ci, &mut v);
                v.push(e);
                self.channel_events_cache.set_and_swap(ci, &mut v);
                proof {
                    assert(self.caches() =~= o.caches().update(c as int, o.caches()[c as int].push(e)));
                    lemma_total_update(o.caches(), c as int, o.caches()[c as int].push(e));
                }
                self.cached_event_count = self.cached_event_count + 1;
                if self.cached_event_count > MAX_EVENT_CACHE_SIZE {
                    Some(self.flush_events())
                } else {
                    None
                }
            },
            SynthEvent::AllChannels(ChannelEvent::Audio(e)) => {
                let n = self.channel_events_cache.len();
                let mut j: usize = 0;
                while j < n
                    invariant
                        n == o.channel_events_cache@.len(),
                        0 <= j <= n,
                        self.channel_events_cache@.len() == n,
                        self.channels == o.channels,
                        self.cached_event_count == o.cached_event_count,
                        self.audio_params == o.audio_params,
                        forall|k: int| 0 <= k < j ==> (#[trigger] self.channel_events_cache@[k])@ == o.channel_events_cache@[k]@.push(e),
                        forall|k: int| j <= k < n ==> #[trigger] self.channel_events_cache@[k] == o.channel_events_cache@[k],
                        total_len(self.caches()) == total_len(o.caches()) + j,
                    decreases n - j,
                {
                    let ghost before = self.caches();
                    let mut v: Vec<ChannelAudioEvent> = Vec::new();
                    self.channel_events_cache.set_and_swap(j, &mut v);
                    v.push(e);
                    self.channel_events_cache.set_and_swap(j, &mut v);
                    proof {
                        assert(self.caches() =~= before.update(j as int, before[j as int].push(e)));
                        lemma_total_update(before, j as int, before[j as int].push(e));
                    }
                    j = j + 1;
                }
                proof {
                    assert(self.caches() =~= o.caches().map_values(|v: Seq<ChannelAudioEvent>| v.push(e)));
                }
                self.cached_event_count = self.cached_event_count + (n as u32);
                if self.cached_event_count > MAX_EVENT_CACHE_SIZE {
                    Some(self.flush_events())
                } else {
                    None
                }
            },
            SynthEvent::Channel(c, ChannelEvent::Config(e)) => {
                let ci = c as usize;
                let channel = &mut self.channels[ci];
                channel.process_event(ChannelEvent::Config(e));
                None
            },
            SynthEvent::AllChannels(ChannelEvent::Config(e)) => {
                let n = self.channels.len();
                let mut j: usize = 0;
                while j < n
                    invariant
                        n == o.channels@.len(),
                        0 <= j <= n,
                        o.wf(),
                        self.channels@.len() == n,
                        self.channel_events_cache == o.channel_events_cache,
                        self.cached_event_count == o.cached_event_count,
                        self.audio_params == o.audio_params,
                        forall|k: int| 0 <= k < j ==> (#[trigger] self.channels@[k]).wf() && config_step(o.channels@[k], self.channels@[k], e),
                        forall|k: int| j <= k < n ==> #[trigger] self.channels@[k] == o.channels@[k],
                    decreases n - j,
                {
                    let ej = clone_config(&e);
                    let channel = &mut self.channels[j];
                    channel.process_event(ChannelEvent::Config(ej));
                    j = j + 1;
                }
                None
            },
        }
    }
}

} // verus!
