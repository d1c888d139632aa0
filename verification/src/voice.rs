use vstd::prelude::*;

verus! {

/// How a voice is asked to stop.
#[derive(Debug, Clone, Copy, PartialEq, Eq, Structural)]
pub enum ReleaseType {
    /// The voice enters its normal release stage.
    Standard,
    /// The voice is killed: it fades out as quickly as possible.
    Kill,
}

/// The part of a voice that produces audio. The audio itself is rendered
/// outside the verified core; the core only asks a generator whether it has
/// ended and tells it when it is released.
pub trait VoiceGeneratorBase: Sized {
    /// Whether the generator has finished producing audio, as a function of
    /// the generator. An implementation verified with the library defines
    /// it. One written outside keeps this default: a function of the
    /// generator chosen with nothing known of it, which `ended` is trusted
    /// to compute (so `ended` must depend on the generator's value alone).
    closed spec fn spec_ended(&self) -> bool {
        (choose|f: spec_fn(Self) -> bool| #[trigger] f(*self) == f(*self))(*self)
    }

    /// Whether the generator has finished producing audio.
    fn ended(&self) -> (r: bool)
        ensures
            r == self.spec_ended(),
    ;

    /// The generator after a release of type `rel_type` was signalled to
    /// it. An implementation verified with the library defines it. One
    /// written outside keeps this default: a function of the generator and
    /// the release type chosen with nothing known of it, which
    /// `signal_release` is trusted to follow (so the generator after a
    /// release must depend on its value before and the release type alone).
    closed spec fn spec_released(&self, rel_type: ReleaseType) -> Self {
        (choose|f: spec_fn(Self, ReleaseType) -> Self| #[trigger] f(*self, rel_type) == f(*self, rel_type))(
            *self,
            rel_type,
        )
    }

    /// Signals a release of the given type to the generator.
    fn signal_release(&mut self, rel_type: ReleaseType)
        ensures
            *final(self) == old(self).spec_released(rel_type),
    ;
}

/// Envelope modifications requested by MIDI controllers (CC 72 and CC 73).
#[derive(Debug, Clone, Copy, PartialEq, Eq, Structural)]
pub struct EnvelopeControlData {
    pub attack: Option<u8>,
    pub release: Option<u8>,
}

impl EnvelopeControlData {
    /// No envelope modification.
    pub fn new_defaults() -> (r: Self)
        ensures
            r.attack is None,
            r.release is None,
    {
        EnvelopeControlData { attack: None, release: None }
    }
}

/// What a channel's controllers ask of every voice: a pitch multiplier
/// (the bit pattern of an `f32`, computed outside the core from pitch bend
/// and tuning) and envelope modifications.
#[derive(Debug, Clone, Copy, PartialEq, Eq, Structural)]
pub struct VoiceControlData {
    pub voice_pitch_multiplier: u32,
    pub envelope: EnvelopeControlData,
}

/// The bit pattern of the `f32` value 1.0.
pub const PITCH_MULTIPLIER_ONE: u32 = 0x3F80_0000;

impl VoiceControlData {
    /// No pitch change and no envelope modification.
    pub fn new_defaults() -> (r: Self)
        ensures
            r.voice_pitch_multiplier == PITCH_MULTIPLIER_ONE,
            r.envelope.attack is None,
            r.envelope.release is None,
    {
        VoiceControlData { voice_pitch_multiplier: PITCH_MULTIPLIER_ONE, envelope: EnvelopeControlData::new_defaults() }
    }
}

/// Something that starts voices: a soundfont hands one out for each voice
/// a note plays.
pub trait VoiceSpawner {
    /// The sample generator of the voices it starts.
    type Generator;

    /// The velocity of the voices it starts.
    spec fn spawn_velocity(&self) -> u8;

    /// Starts a voice: neither releasing nor killed, with a MIDI velocity
    /// (below 128).
    fn spawn_voice(&self, control: &VoiceControlData) -> (r: VoiceBase<Self::Generator>)
        ensures
            r.spec_velocity() == self.spawn_velocity(),
            r.spec_velocity() < 128,
            !r.spec_killed(),
            !r.spec_releasing(),
    ;
}

/// The highest level of a voice: its velocity and whether it was released
/// or killed, around a sample generator.
pub struct VoiceBase<T> {
    sample_generator: T,
    releasing: bool,
    killed: bool,
    velocity: u8,
}

impl<T> VoiceBase<T> {
    pub closed spec fn spec_generator(self) -> T {
        self.sample_generator
    }

    pub closed spec fn spec_releasing(self) -> bool {
        self.releasing
    }

    pub closed spec fn spec_killed(self) -> bool {
        self.killed
    }

    pub closed spec fn spec_velocity(self) -> u8 {
        self.velocity
    }

    /// Creates a voice that is neither releasing nor killed.
    pub fn new(velocity: u8, sample_generator: T) -> (r: VoiceBase<T>)
        ensures
            r.spec_velocity() == velocity,
            r.spec_generator() == sample_generator,
            !r.spec_releasing(),
            !r.spec_killed(),
    {
        VoiceBase { sample_generator, releasing: false, killed: false, velocity }
    }

    pub fn is_releasing(&self) -> (r: bool)
        ensures
            r == self.spec_releasing(),
    {
        self.releasing
    }

    pub fn is_killed(&self) -> (r: bool)
        ensures
            r == self.spec_killed(),
    {
        self.killed
    }

    pub fn velocity(&self) -> (r: u8)
        ensures
            r == self.spec_velocity(),
    {
        self.velocity
    }

    /// Read access to the sample generator.
    pub fn generator(&self) -> (r: &T)
        ensures
            *r == self.spec_generator(),
    {
        &self.sample_generator
    }
}

impl<T: VoiceGeneratorBase> VoiceBase<T> {
    /// Whether the generator of this voice has finished producing audio.
    pub fn ended(&self) -> (r: bool)
        ensures
            r == self.spec_generator().spec_ended(),
    {
        self.sample_generator.ended()
    }

    /// The voice after a release of type `rel_type`: releasing, killed too
    /// for a kill, its generator told of the release.
    pub closed spec fn spec_signalled(self, rel_type: ReleaseType) -> VoiceBase<T> {
        VoiceBase {
            sample_generator: self.sample_generator.spec_released(rel_type),
            releasing: true,
            killed: self.killed || rel_type == ReleaseType::Kill,
            velocity: self.velocity,
        }
    }

    /// What a release leaves of the voice's record: releasing, killed too
    /// for a kill, the same velocity.
    pub proof fn lemma_signalled(self, rel_type: ReleaseType)
        ensures
            self.spec_signalled(rel_type).spec_releasing(),
            self.spec_signalled(rel_type).spec_killed() == (self.spec_killed() || rel_type == ReleaseType::Kill),
            self.spec_signalled(rel_type).spec_velocity() == self.spec_velocity(),
    {
    }

    /// Signals a release to the voice: it becomes releasing, and killed too
    /// when `rel_type` is `Kill`. The generator is told about the release.
    pub fn signal_release(&mut self, rel_type: ReleaseType)
        ensures
            *final(self) == old(self).spec_signalled(rel_type),
            final(self).spec_releasing(),
            final(self).spec_killed() == (old(self).spec_killed() || rel_type == ReleaseType::Kill),
            final(self).spec_velocity() == old(self).spec_velocity(),
    {
        if rel_type == ReleaseType::Kill {
            self.killed = true;
        }
        self.releasing = true;
        self.sample_generator.signal_release(rel_type);
    }

    /// Write access to the sample generator, to render audio or pass control
    /// data to it. The release state and velocity of the voice stay as they are.
    pub fn generator_mut(&mut self) -> (r: &mut T)
        ensures
            *r == old(self).spec_generator(),
            final(self).spec_generator() == *final(r),
            final(self).spec_releasing() == old(self).spec_releasing(),
            final(self).spec_killed() == old(self).spec_killed(),
            final(self).spec_velocity() == old(self).spec_velocity(),
    {
        &mut self.sample_generator
    }
}

} // verus!
