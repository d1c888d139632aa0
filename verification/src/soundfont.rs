use std::sync::Arc;
use vstd::prelude::*;

use crate::audio_stream::{AudioStreamParams, ChannelCount};
use crate::config::SoundfontInitOptions;
use crate::helpers::arc_clone;
use vstd::string::StringSliceAdditionalSpecFns;
use crate::voice::{VoiceBase, VoiceControlData, VoiceSpawner};

verus! {

/// A soundfont: for a program (bank, preset), a key and a velocity, it
/// gives the spawners of the voices that play on note-on (attack) and on
/// note-off (release).
pub trait SoundfontBase {
    /// What the soundfont hands out to spawn a voice.
    type Spawner: VoiceSpawner;

    /// The attack spawners for a program, key and velocity.
    spec fn attack_spawners(&self, bank: u8, preset: u8, key: u8, vel: u8) -> Seq<Self::Spawner>;

    /// The release spawners for a program, key and velocity.
    spec fn release_spawners(&self, bank: u8, preset: u8, key: u8, vel: u8) -> Seq<Self::Spawner>;

    /// The audio stream parameters the soundfont was loaded for.
    spec fn spec_stream_params(&self) -> AudioStreamParams;

    /// The audio stream parameters the soundfont was loaded for.
    fn stream_params(&self) -> (r: AudioStreamParams)
        ensures
            r == self.spec_stream_params(),
    ;

    /// Whether the soundfont has an instrument for the program (`bank`, `preset`).
    spec fn has_program(&self, bank: u8, preset: u8) -> bool;

    /// The attack spawners for a program, key and velocity. A soundfont
    /// without the program has none, whatever the key and velocity; one
    /// with it looks them up for a MIDI key and velocity.
    fn get_attack_voice_spawners_at(&self, bank: u8, preset: u8, key: u8, vel: u8) -> (r: Vec<Self::Spawner>)
        requires
            (key < 128 && vel < 128) || !self.has_program(bank, preset),
        ensures
            r@ == self.attack_spawners(bank, preset, key, vel),
    ;

    /// The release spawners for a program, key and velocity.
    fn get_release_voice_spawners_at(&self, bank: u8, preset: u8, key: u8, vel: u8) -> (r: Vec<Self::Spawner>)
        ensures
            r@ == self.release_spawners(bank, preset, key, vel),
    ;
}

/// Number of (key, velocity) cells of an instrument.
pub const INSTRUMENT_CELLS: usize = 16384;

/// Position of the cell for `key` and `vel` in an instrument's table.
pub open spec fn key_vel_index(key: u8, vel: u8) -> int {
    key as int * 128 + vel as int
}

/// Position of the cell for `key` and `vel` in an instrument's table.
pub fn key_vel_to_index(key: u8, vel: u8) -> (r: usize)
    ensures
        r == key_vel_index(key, vel),
{
    (key as usize) * 128 + (vel as usize)
}

/// The keys and velocities a region of a soundfont plays on.
#[derive(Debug, Clone, Copy, PartialEq, Eq, Structural)]
pub struct RegionRange {
    pub key_lo: u8,
    pub key_hi: u8,
    pub vel_lo: u8,
    pub vel_hi: u8,
}

/// Whether region `r` plays on key `k` and velocity `v`.
pub open spec fn region_covers(r: RegionRange, k: u8, v: u8) -> bool {
    r.key_lo <= k <= r.key_hi && r.vel_lo <= v <= r.vel_hi
}

/// The positions, in order, of the regions that play on key `k` and
/// velocity `v`.
pub open spec fn covering(regions: Seq<RegionRange>, k: u8, v: u8) -> Seq<int>
    decreases regions.len(),
{
    if regions.len() == 0 {
        Seq::empty()
    } else {
        let rest = covering(regions.drop_last(), k, v);
        if region_covers(regions.last(), k, v) {
            rest.push(regions.len() - 1)
        } else {
            rest
        }
    }
}

/// `after` is `before` followed by one voice parameter per region of
/// `regions` (positions), each one that `make` may give for that region,
/// key and velocity.
pub open spec fn regions_added<P, F: Fn(usize, u8, u8) -> Arc<P>>(
    before: Seq<Arc<P>>,
    after: Seq<Arc<P>>,
    regions: Seq<int>,
    k: u8,
    v: u8,
    make: F,
) -> bool {
    &&& after.len() == before.len() + regions.len()
    &&& after.take(before.len() as int) == before
    &&& forall|j: int|
        0 <= j < regions.len() ==> make.ensures((regions[j] as usize, k, v), #[trigger] after[before.len() + j])
}

/// One more region adds one more voice parameter.
pub proof fn lemma_regions_added_push<P, F: Fn(usize, u8, u8) -> Arc<P>>(
    start: Seq<Arc<P>>,
    before: Seq<Arc<P>>,
    after: Seq<Arc<P>>,
    regions: Seq<int>,
    i: int,
    k: u8,
    v: u8,
    make: F,
)
    requires
        regions_added(start, before, regions, k, v, make),
        after.len() == before.len() + 1,
        after.drop_last() == before,
        make.ensures((i as usize, k, v), after.last()),
    ensures
        regions_added(start, after, regions.push(i), k, v, make),
{
    assert(after.take(start.len() as int) =~= before.take(start.len() as int));
    let r2 = regions.push(i);
    assert forall|j: int| 0 <= j < r2.len() implies make.ensures((r2[j] as usize, k, v), #[trigger] after[start.len() + j]) by {
        if j < regions.len() {
            assert(after[start.len() + j] == before[start.len() + j]);
        } else {
            assert(after[start.len() + j] == after.last());
        }
    }
}

/// The voice parameters of one instrument (program) of a sample soundfont,
/// for every key and velocity. `P` holds the parameters of one voice (its
/// sample, envelope, pitch, filter); the table itself is what is checked here.
pub struct SoundfontInstrument<P> {
    bank: u8,
    preset: u8,
    spawner_params_list: Vec<Vec<Arc<P>>>,
}

impl<P> SoundfontInstrument<P> {
    pub closed spec fn spec_bank(&self) -> u8 {
        self.bank
    }

    pub closed spec fn spec_preset(&self) -> u8 {
        self.preset
    }

    /// The voice parameters at `key`, `vel` (empty when the instrument has no table).
    pub closed spec fn params_at(&self, key: u8, vel: u8) -> Seq<Arc<P>> {
        if self.spawner_params_list@.len() == 0 {
            Seq::empty()
        } else {
            self.spawner_params_list@[key_vel_index(key, vel)]@
        }
    }

    /// The instrument has one cell per key and velocity.
    pub closed spec fn has_table(&self) -> bool {
        self.spawner_params_list@.len() == INSTRUMENT_CELLS
    }

    /// The table is either empty or has one cell per key and velocity.
    pub closed spec fn wf(&self) -> bool {
        self.spawner_params_list@.len() == 0 || self.spawner_params_list@.len() == INSTRUMENT_CELLS
    }

    /// An instrument for program (`bank`, `preset`) with no voices yet.
    pub fn new(bank: u8, preset: u8) -> (r: Self)
        ensures
            r.wf(),
            r.has_table(),
            r.spec_bank() == bank,
            r.spec_preset() == preset,
            forall|k: u8, v: u8| k < 128 && v < 128 ==> #[trigger] r.params_at(k, v) == Seq::<Arc<P>>::empty(),
    {
        let mut spawner_params_list: Vec<Vec<Arc<P>>> = Vec::new();
        let mut i: usize = 0;
        while i < INSTRUMENT_CELLS
            invariant
                0 <= i <= INSTRUMENT_CELLS,
                spawner_params_list@.len() == i,
                forall|j: int| 0 <= j < i ==> (#[trigger] spawner_params_list@[j])@ == Seq::<Arc<P>>::empty(),
            decreases INSTRUMENT_CELLS - i,
        {
            spawner_params_list.push(Vec::new());
            i = i + 1;
        }
        SoundfontInstrument { bank, preset, spawner_params_list }
    }

    /// Adds voice parameters at `key`, `vel`, after those already there.
    pub fn push_params(&mut self, key: u8, vel: u8, params: Arc<P>)
        requires
            old(self).wf(),
            old(self).has_table(),
            key < 128,
            vel < 128,
        ensures
            final(self).wf(),
            final(self).has_table(),
            final(self).spec_bank() == old(self).spec_bank(),
            final(self).spec_preset() == old(self).spec_preset(),
            final(self).params_at(key, vel) == old(self).params_at(key, vel).push(params),
            forall|k: u8, v: u8|
                k < 128 && v < 128 && (k != key || v != vel) ==> #[trigger] final(self).params_at(k, v) == old(
                    self,
                ).params_at(k, v),
    {
        let index = key_vel_to_index(key, vel);
        let mut cell: Vec<Arc<P>> = Vec::new();
        self.spawner_params_list.set_and_swap(index, &mut cell);
        cell.push(params);
        self.spawner_params_list.set(index, cell);
        proof {
            assert forall|k: u8, v: u8| k < 128 && v < 128 && (k != key || v != vel) implies #[trigger] self.params_at(
                k,
                v,
            ) == old(self).params_at(k, v) by {
                assert(key_vel_index(k, v) != key_vel_index(key, vel));
            }
        }
    }

    /// The voice parameters at `key`, `vel`.
    pub fn params_vec_at(&self, key: u8, vel: u8) -> (r: &Vec<Arc<P>>)
        requires
            self.has_table(),
            key < 128,
            vel < 128,
        ensures
            r@ == self.params_at(key, vel),
    {
        let index = key_vel_to_index(key, vel);
        &self.spawner_params_list[index]
    }

    /// The bank of the instrument's program.
    pub fn bank(&self) -> (r: u8)
        ensures
            r == self.spec_bank(),
    {
        self.bank
    }

    /// The preset of the instrument's program.
    pub fn preset(&self) -> (r: u8)
        ensures
            r == self.spec_preset(),
    {
        self.preset
    }

    /// Adds, for every key in `key_lo..=key_hi` and every velocity in
    /// `vel_lo..=vel_hi`, the voice parameters that `make` gives for that key
    /// and velocity, after those already there. Every other cell stays.
    pub fn add_region<F: Fn(u8, u8) -> Arc<P>>(&mut self, key_lo: u8, key_hi: u8, vel_lo: u8, vel_hi: u8, make: F)
        requires
            old(self).wf(),
            old(self).has_table(),
            key_hi < 128,
            vel_hi < 128,
            forall|k: u8, v: u8| #[trigger] make.requires((k, v)),
        ensures
            final(self).wf(),
            final(self).has_table(),
            final(self).spec_bank() == old(self).spec_bank(),
            final(self).spec_preset() == old(self).spec_preset(),
            forall|k: u8, v: u8|
                k < 128 && v < 128 && key_lo <= k <= key_hi && vel_lo <= v <= vel_hi ==> {
                    &&& #[trigger] final(self).params_at(k, v).len() == old(self).params_at(k, v).len() + 1
                    &&& final(self).params_at(k, v).drop_last() == old(self).params_at(k, v)
                    &&& make.ensures((k, v), final(self).params_at(k, v).last())
                },
            forall|k: u8, v: u8|
                k < 128 && v < 128 && !(key_lo <= k <= key_hi && vel_lo <= v <= vel_hi)
                    ==> #[trigger] final(self).params_at(k, v) == old(self).params_at(k, v),
    {
        if key_lo > key_hi || vel_lo > vel_hi {
            return;
        }
        let ghost start = *self;
        let mut key: u16 = key_lo as u16;
        while key <= key_hi as u16
            invariant
                self.wf(),
                self.has_table(),
                self.spec_bank() == start.spec_bank(),
                self.spec_preset() == start.spec_preset(),
                start.has_table(),
                key_lo <= key <= key_hi + 1,
                vel_lo <= vel_hi,
                key_hi < 128,
                vel_hi < 128,
                forall|k: u8, v: u8| #[trigger] make.requires((k, v)),
                forall|k: u8, v: u8|
                    k < 128 && v < 128 && key_lo <= k < key && vel_lo <= v <= vel_hi ==> {
                        &&& #[trigger] self.params_at(k, v).len() == start.params_at(k, v).len() + 1
                        &&& self.params_at(k, v).drop_last() == start.params_at(k, v)
                        &&& make.ensures((k, v), self.params_at(k, v).last())
                    },
                forall|k: u8, v: u8|
                    k < 128 && v < 128 && !(key_lo <= k < key && vel_lo <= v <= vel_hi)
                        ==> #[trigger] self.params_at(k, v) == start.params_at(k, v),
            decreases key_hi + 1 - key,
        {
            let k8: u8 = key as u8;
            let mut vel: u16 = vel_lo as u16;
            while vel <= vel_hi as u16
                invariant
                    self.wf(),
                    self.has_table(),
                    self.spec_bank() == start.spec_bank(),
                    self.spec_preset() == start.spec_preset(),
                    start.has_table(),
                    key_lo <= key <= key_hi,
                    k8 == key,
                    key_hi < 128,
                    vel_hi < 128,
                    vel_lo <= vel <= vel_hi + 1,
                    forall|k: u8, v: u8| #[trigger] make.requires((k, v)),
                    forall|k: u8, v: u8|
                        k < 128 && v < 128 && ((key_lo <= k < key && vel_lo <= v <= vel_hi) || (k == key
                            && vel_lo <= v < vel)) ==> {
                            &&& #[trigger] self.params_at(k, v).len() == start.params_at(k, v).len() + 1
                            &&& self.params_at(k, v).drop_last() == start.params_at(k, v)
                            &&& make.ensures((k, v), self.params_at(k, v).last())
                        },
                    forall|k: u8, v: u8|
                        k < 128 && v < 128 && !((key_lo <= k < key && vel_lo <= v <= vel_hi) || (k == key
                            && vel_lo <= v < vel)) ==> #[trigger] self.params_at(k, v) == start.params_at(k, v),
                decreases vel_hi + 1 - vel,
            {
                let v8: u8 = vel as u8;
                let params = make(k8, v8);
                let ghost before = *self;
                self.push_params(k8, v8, params);
                proof {
                    assert(self.params_at(k8, v8).drop_last() =~= before.params_at(k8, v8));
                }
                vel = vel + 1;
            }
            key = key + 1;
        }
    }

    /// Adds the voice parameters of `regions`, in order: for each key and
    /// velocity a region covers, the parameters `make` gives for the
    /// region's position, the key and the velocity, after those already
    /// there.
    pub fn add_regions<F: Fn(usize, u8, u8) -> Arc<P>>(&mut self, regions: &Vec<RegionRange>, make: F)
        requires
            old(self).wf(),
            old(self).has_table(),
            forall|i: int| 0 <= i < regions@.len() ==> (#[trigger] regions@[i]).key_hi < 128 && regions@[i].vel_hi < 128,
            forall|i: usize, k: u8, v: u8| #[trigger] make.requires((i, k, v)),
        ensures
            final(self).wf(),
            final(self).has_table(),
            final(self).spec_bank() == old(self).spec_bank(),
            final(self).spec_preset() == old(self).spec_preset(),
            forall|k: u8, v: u8|
                k < 128 && v < 128 ==> regions_added(
                    old(self).params_at(k, v),
                    #[trigger] final(self).params_at(k, v),
                    covering(regions@, k, v),
                    k,
                    v,
                    make,
                ),
    {
        let ghost start = *self;
        let mut i: usize = 0;
        proof {
            assert(regions@.take(0) =~= Seq::<RegionRange>::empty());
            assert forall|k: u8, v: u8| k < 128 && v < 128 implies regions_added(
                start.params_at(k, v),
                #[trigger] self.params_at(k, v),
                covering(regions@.take(0), k, v),
                k,
                v,
                make,
            ) by {
                assert(self.params_at(k, v).take(self.params_at(k, v).len() as int) =~= self.params_at(k, v));
            }
        }
        while i < regions.len()
            invariant
                0 <= i <= regions@.len(),
                self.wf(),
                self.has_table(),
                self.spec_bank() == start.spec_bank(),
                self.spec_preset() == start.spec_preset(),
                forall|j: int| 0 <= j < regions@.len() ==> (#[trigger] regions@[j]).key_hi < 128 && regions@[j].vel_hi < 128,
                forall|j: usize, k: u8, v: u8| #[trigger] make.requires((j, k, v)),
                forall|k: u8, v: u8|
                    k < 128 && v < 128 ==> regions_added(
                        start.params_at(k, v),
                        #[trigger] self.params_at(k, v),
                        covering(regions@.take(i as int), k, v),
                        k,
                        v,
                        make,
                    ),
            decreases regions@.len() - i,
        {
            let r = regions[i];
            let ghost before = *self;
            let idx = i;
            let mk = &make;
            let f = move |k: u8, v: u8| -> (p: Arc<P>)
                requires
                    mk.requires((idx, k, v)),
                ensures
                    mk.ensures((idx, k, v), p),
                { mk(idx, k, v) };
            self.add_region(r.key_lo, r.key_hi, r.vel_lo, r.vel_hi, f);
            proof {
                let t = regions@.take(i + 1);
                assert(t.drop_last() =~= regions@.take(i as int));
                assert(t.last() == r);
                assert forall|k: u8, v: u8| k < 128 && v < 128 implies regions_added(
                    start.params_at(k, v),
                    #[trigger] self.params_at(k, v),
                    covering(t, k, v),
                    k,
                    v,
                    make,
                ) by {
                    assert(regions_added(start.params_at(k, v), before.params_at(k, v), covering(regions@.take(i as int), k, v), k, v, make));
                    if region_covers(r, k, v) {
                        assert(covering(t, k, v) == covering(regions@.take(i as int), k, v).push(i as int));
                        assert(self.params_at(k, v).drop_last() == before.params_at(k, v));
                        assert(make.ensures((idx, k, v), self.params_at(k, v).last()));
                        lemma_regions_added_push(start.params_at(k, v), before.params_at(k, v), self.params_at(k, v), covering(regions@.take(i as int), k, v), i as int, k, v, make);
                    } else {
                        assert(covering(t, k, v) == covering(regions@.take(i as int), k, v));
                    }
                }
            }
            i = i + 1;
        }
        proof {
            assert(regions@.take(regions@.len() as int) =~= regions@);
        }
    }
}


/// Whether a region whose key range is `key_lo..=key_hi` plays on notes.
/// The key -1 marks regions triggered by a controller, which are not played.
pub fn region_plays_on_keys(key_lo: i8, key_hi: i8) -> (r: bool)
    ensures
        r == !(key_lo <= -1 && -1 <= key_hi),
{
    !(key_lo <= -1 && -1 <= key_hi)
}

/// Whether the program (`bank`, `preset`) of a soundfont is kept by the
/// load options: a bank or preset given in the options must match, where
/// the soundfont's numbers are compared by their low byte.
pub open spec fn spec_program_selected(options: SoundfontInitOptions, bank: u16, preset: u16) -> bool {
    &&& (options.bank matches Some(b) ==> b == bank as u8)
    &&& (options.preset matches Some(p) ==> p == preset as u8)
}

/// Whether the program (`bank`, `preset`) of a soundfont is kept by the
/// load options.
pub fn program_selected(options: &SoundfontInitOptions, bank: u16, preset: u16) -> (r: bool)
    ensures
        r == spec_program_selected(*options, bank, preset),
{
    if let Some(b) = options.bank {
        if b != bank as u8 {
            return false;
        }
    }
    if let Some(p) = options.preset {
        if p != preset as u8 {
            return false;
        }
    }
    true
}

/// How a sample is looped while a voice plays it.
#[derive(Debug, Clone, Copy, PartialEq, Eq, Structural)]
pub enum LoopMode {
    /// Played once, stopped on release.
    NoLoop,
    /// Played once to its end, whatever the release.
    OneShot,
    /// Looped until the voice ends.
    LoopContinuous,
    /// Looped until release, then played to its end.
    LoopSustain,
}

/// The loop mode a region plays with: a loop whose start and end are the
/// same point is no loop.
pub fn effective_loop_mode(mode: LoopMode, loop_start: u32, loop_end: u32) -> (r: LoopMode)
    ensures
        r == (if loop_start == loop_end { LoopMode::NoLoop } else { mode }),
{
    if loop_start == loop_end {
        LoopMode::NoLoop
    } else {
        mode
    }
}

/// The keys and velocities a region of an SFZ soundfont plays on; the key
/// -1 marks a region that a controller triggers.
#[derive(Debug, Clone, Copy, PartialEq, Eq, Structural)]
pub struct SfzRegionRange {
    pub key_lo: i8,
    pub key_hi: i8,
    pub vel_lo: u8,
    pub vel_hi: u8,
}

/// Whether an SFZ region plays on some note: it is not triggered by a
/// controller and its key and velocity ranges are not empty.
pub open spec fn sfz_region_plays(r: SfzRegionRange) -> bool {
    &&& !(r.key_lo <= -1 && -1 <= r.key_hi)
    &&& r.key_lo <= r.key_hi
    &&& r.vel_lo <= r.vel_hi
}

/// The keys and velocities an SFZ region plays on (none for a region that
/// does not play).
pub open spec fn sfz_range(r: SfzRegionRange) -> RegionRange {
    if sfz_region_plays(r) {
        RegionRange { key_lo: r.key_lo as u8, key_hi: r.key_hi as u8, vel_lo: r.vel_lo, vel_hi: r.vel_hi }
    } else {
        RegionRange { key_lo: 1, key_hi: 0, vel_lo: 1, vel_hi: 0 }
    }
}

/// The keys and velocities each SFZ region plays on, in order.
pub fn sfz_ranges(regions: &Vec<SfzRegionRange>) -> (r: Vec<RegionRange>)
    requires
        forall|i: int| 0 <= i < regions@.len() && sfz_region_plays(#[trigger] regions@[i]) ==> regions@[i].key_lo >= 0,
    ensures
        r@ == regions@.map_values(|x: SfzRegionRange| sfz_range(x)),
{
    let mut out: Vec<RegionRange> = Vec::new();
    let mut i: usize = 0;
    while i < regions.len()
        invariant
            0 <= i <= regions@.len(),
            forall|j: int| 0 <= j < regions@.len() && sfz_region_plays(#[trigger] regions@[j]) ==> regions@[j].key_lo >= 0,
            out@ == regions@.take(i as int).map_values(|x: SfzRegionRange| sfz_range(x)),
        decreases regions@.len() - i,
    {
        let x = regions[i];
        let plays = region_plays_on_keys(x.key_lo, x.key_hi) && x.key_lo <= x.key_hi && x.vel_lo <= x.vel_hi;
        let range = if plays {
            RegionRange { key_lo: x.key_lo as u8, key_hi: x.key_hi as u8, vel_lo: x.vel_lo, vel_hi: x.vel_hi }
        } else {
            RegionRange { key_lo: 1, key_hi: 0, vel_lo: 1, vel_hi: 0 }
        };
        assert(range == sfz_range(x));
        out.push(range);
        i = i + 1;
        assert(out@ =~= regions@.take(i as int).map_values(|x: SfzRegionRange| sfz_range(x)));
    }
    assert(regions@.take(regions@.len() as int) =~= regions@);
    out
}

/// The bank and preset that the instrument of a single-instrument
/// soundfont (SFZ) is placed at: those of the options, else 0.
pub fn single_instrument_program(options: &SoundfontInitOptions) -> (r: (u8, u8))
    ensures
        r.0 == (match options.bank {
            Some(b) => b,
            None => 0u8,
        }),
        r.1 == (match options.preset {
            Some(p) => p,
            None => 0u8,
        }),
{
    let bank = match options.bank {
        Some(b) => b,
        None => 0,
    };
    let preset = match options.preset {
        Some(p) => p,
        None => 0,
    };
    (bank, preset)
}


/// The voice parameters of a sample soundfont build the sample generator
/// of a voice; the rendering itself happens outside the core.
pub trait SampleVoiceFactory {
    /// The sample generator built.
    type Generator;

    /// Builds the generator of a voice of velocity `vel` for a stream with
    /// `stream_params`.
    fn build_generator(&self, vel: u8, stream_params: AudioStreamParams, control: &VoiceControlData) -> Self::Generator;
}

/// A voice spawner of a sample soundfont: the voice parameters it plays,
/// the velocity of the note (a MIDI velocity, below 128) and the stream it
/// renders for (which decides between a mono and a stereo voice).
pub struct SampleVoiceSpawner<P> {
    params: Arc<P>,
    vel: u8,
    stream_params: AudioStreamParams,
}

impl<P> SampleVoiceSpawner<P> {
    #[verifier::type_invariant]
    closed spec fn midi_velocity(self) -> bool {
        self.vel < 128
    }

    pub closed spec fn spec_params(&self) -> Arc<P> {
        self.params
    }

    pub closed spec fn spec_vel(&self) -> u8 {
        self.vel
    }

    pub closed spec fn spec_stream_params(&self) -> AudioStreamParams {
        self.stream_params
    }

    /// The voice parameters it plays.
    pub fn params(&self) -> (r: &Arc<P>)
        ensures
            *r == self.spec_params(),
    {
        &self.params
    }

    /// The velocity of the note.
    pub fn vel(&self) -> (r: u8)
        ensures
            r == self.spec_vel(),
    {
        self.vel
    }

    /// The stream it renders for.
    pub fn stream_params(&self) -> (r: AudioStreamParams)
        ensures
            r == self.spec_stream_params(),
    {
        self.stream_params
    }
}

impl<P: SampleVoiceFactory> VoiceSpawner for SampleVoiceSpawner<P> {
    type Generator = P::Generator;

    closed spec fn spawn_velocity(&self) -> u8 {
        self.vel
    }

    fn spawn_voice(&self, control: &VoiceControlData) -> (r: VoiceBase<P::Generator>) {
        proof {
            use_type_invariant(self);
        }
        let generator = self.params.build_generator(self.vel, self.stream_params, control);
        VoiceBase::new(self.vel, generator)
    }
}

/// The spawners that play the voice parameters `params` for a note of
/// velocity `vel` in a stream with `stream_params`.
pub closed spec fn spawners_for<P>(params: Seq<Arc<P>>, vel: u8, stream_params: AudioStreamParams) -> Seq<
    SampleVoiceSpawner<P>,
> {
    params.map_values(|p: Arc<P>| SampleVoiceSpawner { params: p, vel, stream_params })
}

/// One spawner per voice parameters, in the same order, each with the
/// note's velocity and the stream's parameters.
pub proof fn lemma_spawners_for<P>(params: Seq<Arc<P>>, vel: u8, stream_params: AudioStreamParams)
    ensures
        spawners_for(params, vel, stream_params).len() == params.len(),
        forall|j: int|
            0 <= j < params.len() ==> {
                &&& (#[trigger] spawners_for(params, vel, stream_params)[j]).spec_params() == params[j]
                &&& spawners_for(params, vel, stream_params)[j].spec_vel() == vel
                &&& spawners_for(params, vel, stream_params)[j].spec_stream_params() == stream_params
            },
{
}

/// The position of the first instrument, from `i` on, whose program is
/// (`bank`, `preset`).
pub open spec fn first_instrument_from<P>(insts: Seq<SoundfontInstrument<P>>, bank: u8, preset: u8, i: int) -> Option<
    int,
>
    decreases insts.len() - i,
{
    if i < 0 || i >= insts.len() {
        None
    } else if insts[i].spec_bank() == bank && insts[i].spec_preset() == preset {
        Some(i)
    } else {
        first_instrument_from(insts, bank, preset, i + 1)
    }
}

/// Where the first instrument found from `i` on stands: at or after `i`,
/// with the program sought, and after no other instrument with it.
pub proof fn lemma_first_instrument_from<P>(insts: Seq<SoundfontInstrument<P>>, bank: u8, preset: u8, i: int)
    requires
        0 <= i,
    ensures
        first_instrument_from(insts, bank, preset, i) matches Some(j) ==> {
            &&& i <= j < insts.len()
            &&& insts[j].spec_bank() == bank && insts[j].spec_preset() == preset
            &&& forall|m: int|
                i <= m < j ==> !(#[trigger] insts[m].spec_bank() == bank && insts[m].spec_preset() == preset)
        },
        first_instrument_from(insts, bank, preset, i) is None ==> forall|m: int|
            i <= m < insts.len() ==> !(#[trigger] insts[m].spec_bank() == bank && insts[m].spec_preset() == preset),
    decreases insts.len() - i,
{
    if i < insts.len() {
        lemma_first_instrument_from(insts, bank, preset, i + 1);
    }
}

/// A soundfont made of sampled instruments, one per program
/// (bank, preset). A note of a program missing from it plays nothing; a
/// note-off plays nothing either.
pub struct SampleSoundfont<P> {
    instruments: Vec<SoundfontInstrument<P>>,
    stream_params: AudioStreamParams,
}

impl<P> SampleSoundfont<P> {
    /// Every instrument has its full table.
    #[verifier::type_invariant]
    closed spec fn tables_full(self) -> bool {
        forall|i: int| 0 <= i < self.instruments@.len() ==> #[trigger] self.instruments@[i].has_table()
    }

    /// The audio stream parameters the soundfont was made for.
    pub closed spec fn audio_params(&self) -> AudioStreamParams {
        self.stream_params
    }

    /// The instruments, in the order they were added.
    pub closed spec fn instruments(&self) -> Seq<SoundfontInstrument<P>> {
        self.instruments@
    }

    /// A soundfont with no instruments, for a stream with `stream_params`.
    pub fn new(stream_params: AudioStreamParams) -> (r: Self)
        ensures
            r.instruments() == Seq::<SoundfontInstrument<P>>::empty(),
            r.audio_params() == stream_params,
    {
        SampleSoundfont { instruments: Vec::new(), stream_params }
    }

    /// Adds an instrument after those already there.
    pub fn add_instrument(&mut self, instrument: SoundfontInstrument<P>)
        requires
            instrument.has_table(),
        ensures
            final(self).instruments() == old(self).instruments().push(instrument),
            final(self).audio_params() == old(self).audio_params(),
    {
        proof {
            use_type_invariant(&*self);
        }
        let mut instruments: Vec<SoundfontInstrument<P>> = Vec::new();
        std::mem::swap(&mut instruments, &mut self.instruments);
        instruments.push(instrument);
        self.instruments = instruments;
    }

    /// The number of instruments.
    pub fn instrument_count(&self) -> (r: usize)
        ensures
            r == self.instruments().len(),
    {
        self.instruments.len()
    }

    /// The position of the first instrument with program (`bank`, `preset`).
    fn find_instrument(&self, bank: u8, preset: u8) -> (r: Option<usize>)
        ensures
            r matches Some(i) ==> first_instrument_from(self.instruments(), bank, preset, 0) == Some(i as int),
            r is None ==> first_instrument_from(self.instruments(), bank, preset, 0) is None,
    {
        let n = self.instruments.len();
        let mut i: usize = 0;
        while i < n
            invariant
                n == self.instruments@.len(),
                0 <= i <= n,
                first_instrument_from(self.instruments@, bank, preset, 0) == first_instrument_from(
                    self.instruments@,
                    bank,
                    preset,
                    i as int,
                ),
            decreases n - i,
        {
            let inst = &self.instruments[i];
            if inst.bank() == bank && inst.preset() == preset {
                return Some(i);
            }
            i = i + 1;
        }
        None
    }
}

impl<P: SampleVoiceFactory> SoundfontBase for SampleSoundfont<P> {
    type Spawner = SampleVoiceSpawner<P>;

    open spec fn attack_spawners(&self, bank: u8, preset: u8, key: u8, vel: u8) -> Seq<SampleVoiceSpawner<P>> {
        match first_instrument_from(self.instruments(), bank, preset, 0) {
            Some(i) => spawners_for(self.instruments()[i].params_at(key, vel), vel, self.spec_stream_params()),
            None => Seq::empty(),
        }
    }

    open spec fn release_spawners(&self, bank: u8, preset: u8, key: u8, vel: u8) -> Seq<SampleVoiceSpawner<P>> {
        Seq::empty()
    }

    open spec fn has_program(&self, bank: u8, preset: u8) -> bool {
        first_instrument_from(self.instruments(), bank, preset, 0) is Some
    }

    open spec fn spec_stream_params(&self) -> AudioStreamParams {
        self.audio_params()
    }

    fn stream_params(&self) -> (r: AudioStreamParams) {
        self.stream_params
    }

    fn get_attack_voice_spawners_at(&self, bank: u8, preset: u8, key: u8, vel: u8) -> (r: Vec<SampleVoiceSpawner<P>>) {
        proof {
            use_type_invariant(self);
        }
        let mut out: Vec<SampleVoiceSpawner<P>> = Vec::new();
        match self.find_instrument(bank, preset) {
            None => {
                assert(out@ =~= self.attack_spawners(bank, preset, key, vel));
                out
            },
            Some(i) => {
                proof {
                    lemma_first_instrument_from(self.instruments@, bank, preset, 0);
                    assert(self.instruments@[i as int].has_table());
                }
                let cell = self.instruments[i].params_vec_at(key, vel);
                let ghost target = spawners_for(cell@, vel, self.stream_params);
                let mut j: usize = 0;
                while j < cell.len()
                    invariant
                        0 <= j <= cell@.len(),
                        vel < 128,
                        target == spawners_for(cell@, vel, self.stream_params),
                        out@ =~= target.take(j as int),
                    decreases cell@.len() - j,
                {
                    let spawner = SampleVoiceSpawner { params: arc_clone(&cell[j]), vel, stream_params: self.stream_params };
                    assert(spawner == target[j as int]);
                    out.push(spawner);
                    j = j + 1;
                }
                assert(out@ =~= target);
                out
            },
        }
    }

    fn get_release_voice_spawners_at(&self, bank: u8, preset: u8, key: u8, vel: u8) -> (r: Vec<SampleVoiceSpawner<P>>) {
        Vec::new()
    }
}

/// Errors that loading an audio file gives.
#[derive(Debug, Clone, PartialEq, Eq)]
pub enum AudioLoadError {
    /// The file could not be read; the message of the I/O error.
    IOError(String),
    /// The audio could not be decoded; the file's path.
    AudioDecodingFailed(String),
    /// The audio has a channel count that is not supported; the file's path.
    InvalidChannelCount(String),
    /// The file holds no audio track; the file's path.
    NoTracks(String),
}

/// The soundfont formats that can be loaded.
#[derive(Debug, Clone, Copy, PartialEq, Eq, Structural)]
pub enum SoundfontFormat {
    Sfz,
    Sf2,
}

/// Whether byte `b` is the ASCII letter or digit `lower`, in either case.
pub open spec fn byte_matches(b: u8, lower: u8) -> bool {
    b == lower || (97 <= lower <= 122 && b == lower - 32)
}

/// Whether the bytes of an extension are `a`, `b`, `c`, ignoring case.
pub open spec fn ext_matches(ext: Seq<u8>, a: u8, b: u8, c: u8) -> bool {
    &&& ext.len() == 3
    &&& byte_matches(ext[0], a)
    &&& byte_matches(ext[1], b)
    &&& byte_matches(ext[2], c)
}

/// The format of a soundfont file by its extension, ignoring case: `sfz`
/// or `sf2`; any other extension, or none, is not supported.
pub open spec fn spec_soundfont_format(ext: Option<Seq<u8>>) -> Option<SoundfontFormat> {
    match ext {
        Some(e) => if ext_matches(e, 115, 102, 122) {
            Some(SoundfontFormat::Sfz)
        } else if ext_matches(e, 115, 102, 50) {
            Some(SoundfontFormat::Sf2)
        } else {
            None
        },
        None => None,
    }
}

fn byte_is(b: u8, lower: u8) -> (r: bool)
    requires
        lower < 128,
    ensures
        r == byte_matches(b, lower),
{
    b == lower || (97 <= lower && lower <= 122 && b == lower - 32)
}

/// The format of a soundfont file by its extension (`None` when the path
/// has no extension): `sfz` or `sf2` in any case; `None` when it is not
/// supported.
pub fn soundfont_format(ext: Option<&str>) -> (r: Option<SoundfontFormat>)
    ensures
        r == spec_soundfont_format(
            match ext {
                Some(e) => Some(e.spec_bytes()),
                None => None,
            },
        ),
{
    match ext {
        None => None,
        Some(e) => {
            let b = e.as_bytes();
            if b.len() != 3 {
                return None;
            }
            if byte_is(b[0], 115) && byte_is(b[1], 102) && byte_is(b[2], 122) {
                Some(SoundfontFormat::Sfz)
            } else if byte_is(b[0], 115) && byte_is(b[1], 102) && byte_is(b[2], 50) {
                Some(SoundfontFormat::Sf2)
            } else {
                None
            }
        },
    }
}

impl<P> SampleSoundfont<P> {
    /// Adds the instrument of one preset of an SF2 soundfont, if the load
    /// options keep its program: its voice parameters for each key and
    /// velocity are those `make` gives for each region that plays there, in
    /// region order. Returns whether the instrument was added.
    pub fn add_preset<F: Fn(usize, u8, u8) -> Arc<P>>(
        &mut self,
        options: &SoundfontInitOptions,
        bank: u16,
        preset: u16,
        regions: &Vec<RegionRange>,
        make: F,
    ) -> (r: bool)
        requires
            forall|i: int| 0 <= i < regions@.len() ==> (#[trigger] regions@[i]).key_hi < 128 && regions@[i].vel_hi < 128,
            forall|i: usize, k: u8, v: u8| #[trigger] make.requires((i, k, v)),
        ensures
            r == spec_program_selected(*options, bank, preset),
            final(self).audio_params() == old(self).audio_params(),
            !r ==> final(self).instruments() == old(self).instruments(),
            r ==> {
                let inst = final(self).instruments().last();
                &&& final(self).instruments().len() == old(self).instruments().len() + 1
                &&& final(self).instruments().drop_last() == old(self).instruments()
                &&& inst.spec_bank() == bank as u8
                &&& inst.spec_preset() == preset as u8
                &&& forall|k: u8, v: u8|
                    k < 128 && v < 128 ==> regions_added(
                        Seq::empty(),
                        #[trigger] inst.params_at(k, v),
                        covering(regions@, k, v),
                        k,
                        v,
                        make,
                    )
            },
    {
        if !program_selected(options, bank, preset) {
            return false;
        }
        let mut inst: SoundfontInstrument<P> = SoundfontInstrument::new(bank as u8, preset as u8);
        inst.add_regions(regions, make);
        self.add_instrument(inst);
        proof {
            assert(self.instruments().drop_last() =~= old(self).instruments());
        }
        true
    }
}

/// The instrument of an SFZ soundfont: at the bank and preset of the load
/// options (0 when not given), with, for each key and velocity, the voice
/// parameters `make` gives for each region that plays there, in region
/// order; regions triggered by a controller are left out.
pub fn sfz_instrument<P, F: Fn(usize, u8, u8) -> Arc<P>>(
    options: &SoundfontInitOptions,
    regions: &Vec<SfzRegionRange>,
    make: F,
) -> (r: SoundfontInstrument<P>)
    requires
        forall|i: int|
            0 <= i < regions@.len() && sfz_region_plays(#[trigger] regions@[i]) ==> {
                &&& regions@[i].key_lo >= 0
                &&& regions@[i].key_hi < 128
                &&& regions@[i].vel_hi < 128
            },
        forall|i: usize, k: u8, v: u8| #[trigger] make.requires((i, k, v)),
    ensures
        r.has_table(),
        r.spec_bank() == (match options.bank {
            Some(b) => b,
            None => 0u8,
        }),
        r.spec_preset() == (match options.preset {
            Some(p) => p,
            None => 0u8,
        }),
        forall|k: u8, v: u8|
            k < 128 && v < 128 ==> regions_added(
                Seq::empty(),
                #[trigger] r.params_at(k, v),
                covering(regions@.map_values(|x: SfzRegionRange| sfz_range(x)), k, v),
                k,
                v,
                make,
            ),
{
    let (bank, preset) = single_instrument_program(options);
    let ranges = sfz_ranges(regions);
    proof {
        assert forall|i: int| 0 <= i < ranges@.len() implies (#[trigger] ranges@[i]).key_hi < 128 && ranges@[i].vel_hi < 128 by {
            assert(ranges@[i] == sfz_range(regions@[i]));
        }
    }
    let mut inst: SoundfontInstrument<P> = SoundfontInstrument::new(bank, preset);
    inst.add_regions(&ranges, make);
    inst
}

/// The channels of a sample for a stream: a mono sample played in a stereo
/// stream has its one channel on both sides; otherwise the channels stay.
pub fn samples_for_stream<T: ?Sized>(samples: Vec<Arc<T>>, channels: ChannelCount) -> (r: Vec<Arc<T>>)
    ensures
        r@ == if channels == ChannelCount::Stereo && samples@.len() == 1 {
            seq![samples@[0], samples@[0]]
        } else {
            samples@
        },
{
    if channels == ChannelCount::Stereo && samples.len() == 1 {
        let a = arc_clone(&samples[0]);
        let b = arc_clone(&samples[0]);
        let mut out: Vec<Arc<T>> = Vec::new();
        out.push(a);
        out.push(b);
        assert(out@ =~= seq![samples@[0], samples@[0]]);
        out
    } else {
        samples
    }
}

} // verus!
