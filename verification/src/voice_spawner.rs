use vstd::prelude::*;

verus! {

/// Number of (key, velocity) cells: 128 keys times 128 velocities.
pub const MATRIX_CELLS: usize = 16384;

/// Position of the cell for `key` and `vel` in the spawner matrix.
pub open spec fn matrix_index(key: u8, vel: u8) -> int {
    key as int + vel as int * 128
}

/// The voice spawners of a channel for every key and velocity: those that
/// spawn voices on note-on (attack) and those that spawn voices on
/// note-off (release).
pub struct VoiceSpawnerMatrix<S> {
    voice_spawners_attack: Vec<Vec<S>>,
    voice_spawners_release: Vec<Vec<S>>,
}

impl<S> VoiceSpawnerMatrix<S> {
    /// The attack spawners at `key`, `vel`.
    pub closed spec fn attack_at(&self, key: u8, vel: u8) -> Seq<S> {
        self.voice_spawners_attack@[matrix_index(key, vel)]@
    }

    /// The release spawners at `key`, `vel`.
    pub closed spec fn release_at(&self, key: u8, vel: u8) -> Seq<S> {
        self.voice_spawners_release@[matrix_index(key, vel)]@
    }

    /// Both tables hold one cell per key and velocity.
    pub closed spec fn wf(&self) -> bool {
        &&& self.voice_spawners_attack@.len() == MATRIX_CELLS
        &&& self.voice_spawners_release@.len() == MATRIX_CELLS
    }

    /// A matrix with no spawners in any cell.
    pub fn new() -> (r: Self)
        ensures
            r.wf(),
            forall|k: u8, v: u8| k < 128 && v < 128 ==> #[trigger] r.attack_at(k, v) == Seq::<S>::empty(),
            forall|k: u8, v: u8| k < 128 && v < 128 ==> #[trigger] r.release_at(k, v) == Seq::<S>::empty(),
    {
        let mut voice_spawners_attack: Vec<Vec<S>> = Vec::new();
        let mut voice_spawners_release: Vec<Vec<S>> = Vec::new();
        let mut i: usize = 0;
        while i < MATRIX_CELLS
            invariant
                0 <= i <= MATRIX_CELLS,
                voice_spawners_attack@.len() == i,
                voice_spawners_release@.len() == i,
                forall|j: int| 0 <= j < i ==> (#[trigger] voice_spawners_attack@[j])@ == Seq::<S>::empty(),
                forall|j: int| 0 <= j < i ==> (#[trigger] voice_spawners_release@[j])@ == Seq::<S>::empty(),
            decreases MATRIX_CELLS - i,
        {
            voice_spawners_attack.push(Vec::new());
            voice_spawners_release.push(Vec::new());
            i = i + 1;
        }
        VoiceSpawnerMatrix { voice_spawners_attack, voice_spawners_release }
    }

    /// Position of the attack cell for `key` and `vel`.
    fn get_spawners_index_at_attack(&self, key: u8, vel: u8) -> (r: usize)
        ensures
            r == matrix_index(key, vel),
    {
        key as usize + vel as usize * 128
    }

    /// Position of the release cell for `key` and `vel`.
    fn get_spawners_index_at_release(&self, key: u8, vel: u8) -> (r: usize)
        ensures
            r == matrix_index(key, vel),
    {
        key as usize + vel as usize * 128
    }

    /// The attack spawners at `key`, `vel`.
    fn get_attack_spawners_vec_at(&self, key: u8, vel: u8) -> (r: &Vec<S>)
        requires
            self.wf(),
            key < 128,
            vel < 128,
        ensures
            r@ == self.attack_at(key, vel),
    {
        let index = self.get_spawners_index_at_attack(key, vel);
        &self.voice_spawners_attack[index]
    }

    /// The release spawners at `key`, `vel`.
    fn get_release_spawners_vec_at(&self, key: u8, vel: u8) -> (r: &Vec<S>)
        requires
            self.wf(),
            key < 128,
            vel < 128,
        ensures
            r@ == self.release_at(key, vel),
    {
        let index = self.get_spawners_index_at_release(key, vel);
        &self.voice_spawners_release[index]
    }

    /// The spawners that a note-on at `key` with velocity `vel` spawns voices from.
    pub fn spawn_voices_attack(&self, key: u8, vel: u8) -> (r: &Vec<S>)
        requires
            self.wf(),
            key < 128,
            vel < 128,
        ensures
            r@ == self.attack_at(key, vel),
    {
        self.get_attack_spawners_vec_at(key, vel)
    }

    /// The spawners that a note-off at `key` (of a note with velocity `vel`)
    /// spawns voices from.
    pub fn spawn_voices_release(&self, key: u8, vel: u8) -> (r: &Vec<S>)
        requires
            self.wf(),
            key < 128,
            vel < 128,
        ensures
            r@ == self.release_at(key, vel),
    {
        self.get_release_spawners_vec_at(key, vel)
    }

    /// Replaces the attack spawners at `key`, `vel`; every other cell stays.
    pub fn set_spawners_attack(&mut self, key: u8, vel: u8, spawners: Vec<S>)
        requires
            old(self).wf(),
            key < 128,
            vel < 128,
        ensures
            final(self).wf(),
            final(self).attack_at(key, vel) == spawners@,
            forall|k: u8, v: u8|
                k < 128 && v < 128 && (k != key || v != vel) ==> #[trigger] final(self).attack_at(k, v) == old(
                    self,
                ).attack_at(k, v),
            forall|k: u8, v: u8| k < 128 && v < 128 ==> #[trigger] final(self).release_at(k, v) == old(self).release_at(k, v),
    {
        let index = self.get_spawners_index_at_attack(key, vel);
        self.voice_spawners_attack.set(index, spawners);
        proof {
            assert forall|k: u8, v: u8| k < 128 && v < 128 && (k != key || v != vel) implies #[trigger] self.attack_at(
                k,
                v,
            ) == old(self).attack_at(k, v) by {
                assert(matrix_index(k, v) != matrix_index(key, vel));
            }
        }
    }

    /// Replaces the release spawners at `key`, `vel`; every other cell stays.
    pub fn set_spawners_release(&mut self, key: u8, vel: u8, spawners: Vec<S>)
        requires
            old(self).wf(),
            key < 128,
            vel < 128,
        ensures
            final(self).wf(),
            final(self).release_at(key, vel) == spawners@,
            forall|k: u8, v: u8|
                k < 128 && v < 128 && (k != key || v != vel) ==> #[trigger] final(self).release_at(k, v) == old(
                    self,
                ).release_at(k, v),
            forall|k: u8, v: u8| k < 128 && v < 128 ==> #[trigger] final(self).attack_at(k, v) == old(self).attack_at(k, v),
    {
        let index = self.get_spawners_index_at_release(key, vel);
        self.voice_spawners_release.set(index, spawners);
        proof {
            assert forall|k: u8, v: u8| k < 128 && v < 128 && (k != key || v != vel) implies #[trigger] self.release_at(
                k,
                v,
            ) == old(self).release_at(k, v) by {
                assert(matrix_index(k, v) != matrix_index(key, vel));
            }
        }
    }
}

} // verus!
