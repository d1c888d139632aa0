use std::sync::Arc;
use vstd::prelude::*;

use crate::helpers::are_arc_vecs_equal;
use crate::soundfont::SoundfontBase;
use crate::voice_spawner::VoiceSpawnerMatrix;

verus! {

/// A MIDI program: a bank and a preset.
#[derive(Debug, Clone, Copy, PartialEq, Eq, Structural)]
pub struct ProgramDescriptor {
    pub bank: u8,
    pub preset: u8,
}

impl Default for ProgramDescriptor {
    fn default() -> (r: Self)
        ensures
            r == (ProgramDescriptor { bank: 0, preset: 0 }),
    {
        ProgramDescriptor { bank: 0, preset: 0 }
    }
}

/// The program whose voices stand in for those missing from a program:
/// for the percussion bank (128) its preset 0, for any other bank the
/// same preset in bank 0.
pub open spec fn fallback_program(bank: u8, preset: u8) -> (u8, u8) {
    if bank == 128 {
        (128, 0)
    } else {
        (0, preset)
    }
}

/// The attack spawners of the first soundfont, from position `i` on, that
/// has any for the program, key and velocity (none if no soundfont has).
pub open spec fn first_attack_from<SF: SoundfontBase>(
    sfs: Seq<Arc<SF>>,
    bank: u8,
    preset: u8,
    key: u8,
    vel: u8,
    i: int,
) -> Seq<SF::Spawner>
    decreases sfs.len() - i,
{
    if i < 0 || i >= sfs.len() {
        Seq::empty()
    } else if sfs[i].attack_spawners(bank, preset, key, vel).len() > 0 {
        sfs[i].attack_spawners(bank, preset, key, vel)
    } else {
        first_attack_from(sfs, bank, preset, key, vel, i + 1)
    }
}

/// The release spawners of the first soundfont, from position `i` on,
/// that has any for the program, key and velocity.
pub open spec fn first_release_from<SF: SoundfontBase>(
    sfs: Seq<Arc<SF>>,
    bank: u8,
    preset: u8,
    key: u8,
    vel: u8,
    i: int,
) -> Seq<SF::Spawner>
    decreases sfs.len() - i,
{
    if i < 0 || i >= sfs.len() {
        Seq::empty()
    } else if sfs[i].release_spawners(bank, preset, key, vel).len() > 0 {
        sfs[i].release_spawners(bank, preset, key, vel)
    } else {
        first_release_from(sfs, bank, preset, key, vel, i + 1)
    }
}

/// The attack spawners a channel plays for a key and velocity: those of
/// the first soundfont that has the program; failing that, those of the
/// first soundfont that has the fallback program; failing that, none.
pub open spec fn chosen_attack<SF: SoundfontBase>(sfs: Seq<Arc<SF>>, program: ProgramDescriptor, key: u8, vel: u8) -> Seq<
    SF::Spawner,
> {
    let primary = first_attack_from(sfs, program.bank, program.preset, key, vel, 0);
    let fb = fallback_program(program.bank, program.preset);
    if primary.len() > 0 {
        primary
    } else {
        first_attack_from(sfs, fb.0, fb.1, key, vel, 0)
    }
}

/// The release spawners a channel plays for a key and velocity, chosen as
/// the attack spawners are.
pub open spec fn chosen_release<SF: SoundfontBase>(sfs: Seq<Arc<SF>>, program: ProgramDescriptor, key: u8, vel: u8) -> Seq<
    SF::Spawner,
> {
    let primary = first_release_from(sfs, program.bank, program.preset, key, vel, 0);
    let fb = fallback_program(program.bank, program.preset);
    if primary.len() > 0 {
        primary
    } else {
        first_release_from(sfs, fb.0, fb.1, key, vel, 0)
    }
}

/// The attack spawners of the first soundfont that has any for the program.
fn find_attack<SF: SoundfontBase>(sfs: &Vec<Arc<SF>>, bank: u8, preset: u8, key: u8, vel: u8) -> (r: Vec<SF::Spawner>)
    requires
        key < 128,
        vel < 128,
    ensures
        r@ == first_attack_from(sfs@, bank, preset, key, vel, 0),
{
    let n = sfs.len();
    let mut i: usize = 0;
    while i < n
        invariant
            n == sfs@.len(),
            0 <= i <= n,
            key < 128,
            vel < 128,
            first_attack_from(sfs@, bank, preset, key, vel, 0) == first_attack_from(sfs@, bank, preset, key, vel, i as int),
        decreases n - i,
    {
        let found = sfs[i].get_attack_voice_spawners_at(bank, preset, key, vel);
        if found.len() > 0 {
            return found;
        }
        i = i + 1;
    }
    Vec::new()
}

/// The release spawners of the first soundfont that has any for the program.
fn find_release<SF: SoundfontBase>(sfs: &Vec<Arc<SF>>, bank: u8, preset: u8, key: u8, vel: u8) -> (r: Vec<SF::Spawner>)
    requires
        key < 128,
        vel < 128,
    ensures
        r@ == first_release_from(sfs@, bank, preset, key, vel, 0),
{
    let n = sfs.len();
    let mut i: usize = 0;
    while i < n
        invariant
            n == sfs@.len(),
            0 <= i <= n,
            key < 128,
            vel < 128,
            first_release_from(sfs@, bank, preset, key, vel, 0) == first_release_from(sfs@, bank, preset, key, vel, i as int),
        decreases n - i,
    {
        let found = sfs[i].get_release_voice_spawners_at(bank, preset, key, vel);
        if found.len() > 0 {
            return found;
        }
        i = i + 1;
    }
    Vec::new()
}

/// The attack spawners a channel plays for a key and velocity.
fn select_attack<SF: SoundfontBase>(sfs: &Vec<Arc<SF>>, program: ProgramDescriptor, key: u8, vel: u8) -> (r: Vec<SF::Spawner>)
    requires
        key < 128,
        vel < 128,
    ensures
        r@ == chosen_attack(sfs@, program, key, vel),
{
    let primary = find_attack(sfs, program.bank, program.preset, key, vel);
    if primary.len() > 0 {
        primary
    } else if program.bank == 128 {
        find_attack(sfs, 128, 0, key, vel)
    } else {
        find_attack(sfs, 0, program.preset, key, vel)
    }
}

/// The release spawners a channel plays for a key and velocity.
fn select_release<SF: SoundfontBase>(sfs: &Vec<Arc<SF>>, program: ProgramDescriptor, key: u8, vel: u8) -> (r: Vec<SF::Spawner>)
    requires
        key < 128,
        vel < 128,
    ensures
        r@ == chosen_release(sfs@, program, key, vel),
{
    let primary = find_release(sfs, program.bank, program.preset, key, vel);
    if primary.len() > 0 {
        primary
    } else if program.bank == 128 {
        find_release(sfs, 128, 0, key, vel)
    } else {
        find_release(sfs, 0, program.preset, key, vel)
    }
}

/// The soundfonts of a channel, its current program, and the spawners
/// that each key and velocity plays, chosen from them.
pub struct ChannelSoundfont<SF: SoundfontBase> {
    soundfonts: Vec<Arc<SF>>,
    matrix: VoiceSpawnerMatrix<SF::Spawner>,
    curr_program: ProgramDescriptor,
}

impl<SF: SoundfontBase> ChannelSoundfont<SF> {
    /// The soundfonts, first one first.
    pub closed spec fn soundfonts(&self) -> Seq<Arc<SF>> {
        self.soundfonts@
    }

    /// The current program.
    pub closed spec fn program(&self) -> ProgramDescriptor {
        self.curr_program
    }

    /// The attack spawners held for `key`, `vel`.
    pub closed spec fn attack_at(&self, key: u8, vel: u8) -> Seq<SF::Spawner> {
        self.matrix.attack_at(key, vel)
    }

    /// The release spawners held for `key`, `vel`.
    pub closed spec fn release_at(&self, key: u8, vel: u8) -> Seq<SF::Spawner> {
        self.matrix.release_at(key, vel)
    }

    /// Every key and velocity holds the spawners chosen from the soundfonts
    /// for the current program.
    pub closed spec fn wf(&self) -> bool {
        &&& self.matrix.wf()
        &&& forall|k: u8, v: u8|
            k < 128 && v < 128 ==> #[trigger] self.matrix.attack_at(k, v) == chosen_attack(
                self.soundfonts@,
                self.curr_program,
                k,
                v,
            )
        &&& forall|k: u8, v: u8|
            k < 128 && v < 128 ==> #[trigger] self.matrix.release_at(k, v) == chosen_release(
                self.soundfonts@,
                self.curr_program,
                k,
                v,
            )
    }

    /// A channel soundfont with no soundfonts, at program (0, 0).
    pub fn new() -> (r: Self)
        ensures
            r.wf(),
            r.soundfonts() == Seq::<Arc<SF>>::empty(),
            r.program() == (ProgramDescriptor { bank: 0, preset: 0 }),
    {
        let matrix = VoiceSpawnerMatrix::new();
        let r = ChannelSoundfont { soundfonts: Vec::new(), matrix, curr_program: ProgramDescriptor::default() };
        assert forall|k: u8, v: u8| k < 128 && v < 128 implies #[trigger] r.matrix.attack_at(k, v) == chosen_attack(
            r.soundfonts@,
            r.curr_program,
            k,
            v,
        ) by {
            assert(r.matrix.attack_at(k, v) == Seq::<SF::Spawner>::empty());
        }
        assert forall|k: u8, v: u8| k < 128 && v < 128 implies #[trigger] r.matrix.release_at(k, v) == chosen_release(
            r.soundfonts@,
            r.curr_program,
            k,
            v,
        ) by {
            assert(r.matrix.release_at(k, v) == Seq::<SF::Spawner>::empty());
        }
        r
    }

    /// Replaces the soundfonts, and the spawners chosen from them, unless
    /// the new list holds the very same soundfonts.
    pub fn set_soundfonts(&mut self, soundfonts: Vec<Arc<SF>>)
        requires
            old(self).wf(),
        ensures
            final(self).wf(),
            final(self).soundfonts() == soundfonts@,
            final(self).program() == old(self).program(),
    {
        if !are_arc_vecs_equal(&self.soundfonts, &soundfonts) {
            self.soundfonts = soundfonts;
            self.rebuild_matrix();
        }
    }

    /// Changes the program, and the spawners chosen for it, if it differs
    /// from the current one.
    pub fn change_program(&mut self, program: ProgramDescriptor)
        requires
            old(self).wf(),
        ensures
            final(self).wf(),
            final(self).soundfonts() == old(self).soundfonts(),
            final(self).program() == program,
    {
        if self.curr_program != program {
            self.curr_program = program;
            self.rebuild_matrix();
        }
    }

    /// Chooses again, for every key and velocity, the spawners from the
    /// soundfonts for the current program.
    fn rebuild_matrix(&mut self)
        requires
            old(self).matrix.wf(),
        ensures
            final(self).wf(),
            final(self).soundfonts == old(self).soundfonts,
            final(self).curr_program == old(self).curr_program,
    {
        let program = self.curr_program;
        let mut k: u8 = 0;
        while k < 128
            invariant
                self.matrix.wf(),
                self.curr_program == program,
                self.soundfonts == old(self).soundfonts,
                0 <= k <= 128,
                forall|kk: u8, vv: u8|
                    kk < k && vv < 128 ==> #[trigger] self.matrix.attack_at(kk, vv) == chosen_attack(
                        self.soundfonts@,
                        program,
                        kk,
                        vv,
                    ),
                forall|kk: u8, vv: u8|
                    kk < k && vv < 128 ==> #[trigger] self.matrix.release_at(kk, vv) == chosen_release(
                        self.soundfonts@,
                        program,
                        kk,
                        vv,
                    ),
            decreases 128 - k,
        {
            let mut v: u8 = 0;
            while v < 128
                invariant
                    self.matrix.wf(),
                    self.curr_program == program,
                    self.soundfonts == old(self).soundfonts,
                    0 <= k < 128,
                    0 <= v <= 128,
                    forall|kk: u8, vv: u8|
                        (kk < k && vv < 128) || (kk == k && vv < v) ==> #[trigger] self.matrix.attack_at(kk, vv)
                            == chosen_attack(self.soundfonts@, program, kk, vv),
                    forall|kk: u8, vv: u8|
                        (kk < k && vv < 128) || (kk == k && vv < v) ==> #[trigger] self.matrix.release_at(kk, vv)
                            == chosen_release(self.soundfonts@, program, kk, vv),
                decreases 128 - v,
            {
                let attack = select_attack(&self.soundfonts, program, k, v);
                let release = select_release(&self.soundfonts, program, k, v);
                self.matrix.set_spawners_attack(k, v, attack);
                self.matrix.set_spawners_release(k, v, release);
                v = v + 1;
            }
            k = k + 1;
        }
    }

    /// The spawners of the voices a note-on at `key` with velocity `vel`
    /// starts: those chosen from the soundfonts for the current program.
    pub fn spawn_voices_attack(&self, key: u8, vel: u8) -> (r: &Vec<SF::Spawner>)
        requires
            self.wf(),
            key < 128,
            vel < 128,
        ensures
            r@ == chosen_attack(self.soundfonts(), self.program(), key, vel),
    {
        self.matrix.spawn_voices_attack(key, vel)
    }

    /// The spawners of the voices a note-off at `key` (of a note with
    /// velocity `vel`) starts.
    pub fn spawn_voices_release(&self, key: u8, vel: u8) -> (r: &Vec<SF::Spawner>)
        requires
            self.wf(),
            key < 128,
            vel < 128,
        ensures
            r@ == chosen_release(self.soundfonts(), self.program(), key, vel),
    {
        self.matrix.spawn_voices_release(key, vel)
    }
}

/// A note plays the voices of the first soundfont that has the channel's
/// program for it, whatever the other soundfonts hold.
pub proof fn lemma_program_found<SF: SoundfontBase>(sfs: Seq<Arc<SF>>, program: ProgramDescriptor, key: u8, vel: u8)
    requires
        first_attack_from(sfs, program.bank, program.preset, key, vel, 0).len() > 0,
    ensures
        chosen_attack(sfs, program, key, vel) == first_attack_from(sfs, program.bank, program.preset, key, vel, 0),
{
}

/// A program that no soundfont has for a note falls back: in a melodic
/// bank to the same preset of bank 0, in the percussion bank (128) to its
/// preset 0.
pub proof fn lemma_program_fallback<SF: SoundfontBase>(sfs: Seq<Arc<SF>>, program: ProgramDescriptor, key: u8, vel: u8)
    requires
        first_attack_from(sfs, program.bank, program.preset, key, vel, 0).len() == 0,
    ensures
        program.bank == 128 ==> chosen_attack(sfs, program, key, vel) == first_attack_from(sfs, 128, 0, key, vel, 0),
        program.bank != 128 ==> chosen_attack(sfs, program, key, vel) == first_attack_from(
            sfs,
            0,
            program.preset,
            key,
            vel,
            0,
        ),
{
}

/// The first soundfont that has voices for a program gives them: a
/// soundfont at position `i` with voices, after soundfonts without, is the
/// one chosen.
pub proof fn lemma_first_attack<SF: SoundfontBase>(
    sfs: Seq<Arc<SF>>,
    bank: u8,
    preset: u8,
    key: u8,
    vel: u8,
    i: int,
)
    requires
        0 <= i < sfs.len(),
        sfs[i].attack_spawners(bank, preset, key, vel).len() > 0,
        forall|j: int| 0 <= j < i ==> (#[trigger] sfs[j].attack_spawners(bank, preset, key, vel)).len() == 0,
    ensures
        first_attack_from(sfs, bank, preset, key, vel, 0) == sfs[i].attack_spawners(bank, preset, key, vel),
{
    lemma_first_attack_from(sfs, bank, preset, key, vel, 0, i);
}

proof fn lemma_first_attack_from<SF: SoundfontBase>(
    sfs: Seq<Arc<SF>>,
    bank: u8,
    preset: u8,
    key: u8,
    vel: u8,
    k: int,
    i: int,
)
    requires
        0 <= k <= i < sfs.len(),
        sfs[i].attack_spawners(bank, preset, key, vel).len() > 0,
        forall|j: int| 0 <= j < i ==> (#[trigger] sfs[j].attack_spawners(bank, preset, key, vel)).len() == 0,
    ensures
        first_attack_from(sfs, bank, preset, key, vel, k) == sfs[i].attack_spawners(bank, preset, key, vel),
    decreases i - k,
{
    if k < i {
        assert(sfs[k].attack_spawners(bank, preset, key, vel).len() == 0);
        lemma_first_attack_from(sfs, bank, preset, key, vel, k + 1, i);
    }
}

} // verus!
