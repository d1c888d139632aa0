use vstd::prelude::*;

verus! {

/// The stages of a volume envelope, in the order they are played.
#[derive(Debug, Clone, Copy, PartialEq, Eq, Structural)]
pub enum EnvelopeStage {
    Delay,
    Attack,
    Hold,
    Decay,
    Sustain,
    /// The envelope goes to this stage as soon as the voice is released.
    Release,
    Finished,
}

impl EnvelopeStage {
    /// The position of the stage, 0 (delay) to 6 (finished).
    pub open spec fn spec_index(self) -> usize {
        match self {
            EnvelopeStage::Delay => 0,
            EnvelopeStage::Attack => 1,
            EnvelopeStage::Hold => 2,
            EnvelopeStage::Decay => 3,
            EnvelopeStage::Sustain => 4,
            EnvelopeStage::Release => 5,
            EnvelopeStage::Finished => 6,
        }
    }

    /// The stage that follows: finished stays finished.
    pub open spec fn spec_next(self) -> EnvelopeStage {
        match self {
            EnvelopeStage::Delay => EnvelopeStage::Attack,
            EnvelopeStage::Attack => EnvelopeStage::Hold,
            EnvelopeStage::Hold => EnvelopeStage::Decay,
            EnvelopeStage::Decay => EnvelopeStage::Sustain,
            EnvelopeStage::Sustain => EnvelopeStage::Release,
            EnvelopeStage::Release => EnvelopeStage::Finished,
            EnvelopeStage::Finished => EnvelopeStage::Finished,
        }
    }

    /// The position of the stage, 0 (delay) to 6 (finished).
    pub fn as_usize(&self) -> (r: usize)
        ensures
            r == self.spec_index(),
    {
        match self {
            EnvelopeStage::Delay => 0,
            EnvelopeStage::Attack => 1,
            EnvelopeStage::Hold => 2,
            EnvelopeStage::Decay => 3,
            EnvelopeStage::Sustain => 4,
            EnvelopeStage::Release => 5,
            EnvelopeStage::Finished => 6,
        }
    }

    /// The stage that follows: finished stays finished.
    pub fn next_stage(&self) -> (r: EnvelopeStage)
        ensures
            r == self.spec_next(),
    {
        match self {
            EnvelopeStage::Delay => EnvelopeStage::Attack,
            EnvelopeStage::Attack => EnvelopeStage::Hold,
            EnvelopeStage::Hold => EnvelopeStage::Decay,
            EnvelopeStage::Decay => EnvelopeStage::Sustain,
            EnvelopeStage::Sustain => EnvelopeStage::Release,
            EnvelopeStage::Release => EnvelopeStage::Finished,
            EnvelopeStage::Finished => EnvelopeStage::Finished,
        }
    }
}

/// The stage at position `i` (0 to 6).
pub open spec fn stage_at(i: int) -> EnvelopeStage {
    if i <= 0 {
        EnvelopeStage::Delay
    } else if i == 1 {
        EnvelopeStage::Attack
    } else if i == 2 {
        EnvelopeStage::Hold
    } else if i == 3 {
        EnvelopeStage::Decay
    } else if i == 4 {
        EnvelopeStage::Sustain
    } else if i == 5 {
        EnvelopeStage::Release
    } else {
        EnvelopeStage::Finished
    }
}

/// The stages go one position up at each step until finished, which stays:
/// from any stage, six steps reach finished.
pub proof fn lemma_next_stage(s: EnvelopeStage)
    ensures
        s.spec_index() < 6 ==> s.spec_next().spec_index() == s.spec_index() + 1,
        s == EnvelopeStage::Finished ==> s.spec_next() == s,
        s.spec_next().spec_next().spec_next().spec_next().spec_next().spec_next() == EnvelopeStage::Finished,
        stage_at(s.spec_index() as int) == s,
{
}

/// The shape of an envelope part, without its levels: a ramp of a number of
/// samples (to a level, or down to zero on a curve), or a constant level.
#[derive(Debug, Clone, Copy, PartialEq, Eq, Structural)]
pub enum EnvelopePartKind {
    Lerp { duration: u32 },
    LerpToZeroCurve { duration: u32 },
    Hold,
}

/// The duration of a part in samples; a constant level has none.
pub open spec fn part_duration(p: EnvelopePartKind) -> u32 {
    match p {
        EnvelopePartKind::Lerp { duration } => duration,
        EnvelopePartKind::LerpToZeroCurve { duration } => duration,
        EnvelopePartKind::Hold => 0,
    }
}

/// Whether the envelope passes over a part at once: a ramp of no samples.
pub open spec fn part_skipped(p: EnvelopePartKind) -> bool {
    match p {
        EnvelopePartKind::Lerp { duration } => duration == 0,
        EnvelopePartKind::LerpToZeroCurve { duration } => duration == 0,
        EnvelopePartKind::Hold => false,
    }
}

/// The duration of the part of a stage, in samples.
pub fn get_stage_duration(parts: &[EnvelopePartKind; 7], stage: EnvelopeStage) -> (r: u32)
    ensures
        r == part_duration(parts@[stage.spec_index() as int]),
{
    match parts[stage.as_usize()] {
        EnvelopePartKind::Lerp { duration } => duration,
        EnvelopePartKind::LerpToZeroCurve { duration } => duration,
        EnvelopePartKind::Hold => 0,
    }
}

/// The stage the envelope is in when it enters stage `i`: the first stage
/// from `i` on whose part is not passed over at once.
pub open spec fn landing_index(parts: Seq<EnvelopePartKind>, i: int) -> int
    decreases 7 - i,
{
    if i >= 6 || !part_skipped(parts[i]) {
        i
    } else {
        landing_index(parts, i + 1)
    }
}

/// Where an envelope lands: at or after the stage entered, on a part that
/// is not passed over, every part between passed over.
pub proof fn lemma_landing(parts: Seq<EnvelopePartKind>, i: int)
    requires
        parts.len() == 7,
        0 <= i <= 6,
        !part_skipped(parts[6]),
    ensures
        i <= landing_index(parts, i) <= 6,
        !part_skipped(parts[landing_index(parts, i)]),
        forall|j: int| i <= j < landing_index(parts, i) ==> #[trigger] part_skipped(parts[j]),
    decreases 7 - i,
{
    if i < 6 && part_skipped(parts[i]) {
        lemma_landing(parts, i + 1);
    }
}

/// The stage an envelope is in when it enters `stage`: zero-length ramps
/// are passed over. The finished part must not be a zero-length ramp (the
/// envelope would pass over it forever).
pub fn landing_stage(parts: &[EnvelopePartKind; 7], stage: EnvelopeStage) -> (r: EnvelopeStage)
    requires
        !part_skipped(parts@[6]),
    ensures
        r.spec_index() == landing_index(parts@, stage.spec_index() as int),
{
    let mut s = stage;
    let ghost start = stage.spec_index() as int;
    proof {
        lemma_next_stage(stage);
    }
    loop
        invariant
            start == stage.spec_index(),
            start <= s.spec_index() <= 6,
            landing_index(parts@, start) == landing_index(parts@, s.spec_index() as int),
            !part_skipped(parts@[6]),
        decreases 6 - s.spec_index(),
    {
        let skipped = match parts[s.as_usize()] {
            EnvelopePartKind::Lerp { duration } => duration == 0,
            EnvelopePartKind::LerpToZeroCurve { duration } => duration == 0,
            EnvelopePartKind::Hold => false,
        };
        assert(skipped == part_skipped(parts@[s.spec_index() as int]));
        if !skipped {
            assert(landing_index(parts@, s.spec_index() as int) == s.spec_index());
            return s;
        }
        proof {
            lemma_next_stage(s);
        }
        s = s.next_stage();
    }
}


/// The time, in samples since the start of an envelope stage, of a block of
/// `width` consecutive samples (one per SIMD lane), and the time at which
/// the stage ends.
#[derive(Debug, Clone, Copy, PartialEq, Eq, Structural)]
pub struct StageTime {
    start: u64,
    width: u32,
    stage_end_time: u32,
}

impl StageTime {
    /// A block holds at least one sample.
    #[verifier::type_invariant]
    spec fn inv(self) -> bool {
        self.width >= 1
    }

    /// The time of the block's first sample.
    pub closed spec fn spec_start(self) -> u64 {
        self.start
    }

    /// The number of samples in a block.
    pub closed spec fn spec_width(self) -> u32 {
        self.width
    }

    /// The time at which the stage ends.
    pub closed spec fn spec_end_time(self) -> u32 {
        self.stage_end_time
    }

    /// The time of the block's last sample.
    pub open spec fn spec_last(self) -> int {
        self.spec_start() + self.spec_width() - 1
    }

    /// A stage time for blocks of `width` samples, whose first block starts
    /// at `start_offset`, in a stage that ends at `stage_end_time`.
    pub fn new(start_offset: u32, stage_end_time: u32, width: u32) -> (r: Self)
        requires
            width >= 1,
        ensures
            r.spec_start() == start_offset,
            r.spec_width() == width,
            r.spec_end_time() == stage_end_time,
    {
        StageTime { start: start_offset as u64, width, stage_end_time }
    }

    /// Moves on to the next block.
    pub fn increment(&mut self)
        requires
            old(self).spec_start() + old(self).spec_width() <= u64::MAX,
        ensures
            final(self).spec_start() == old(self).spec_start() + old(self).spec_width(),
            final(self).spec_width() == old(self).spec_width(),
            final(self).spec_end_time() == old(self).spec_end_time(),
    {
        proof {
            use_type_invariant(&*self);
        }
        self.start = self.start + self.width as u64;
    }

    /// Moves the block on by `by` samples.
    pub fn increment_by(&mut self, by: u32)
        requires
            old(self).spec_start() + by <= u64::MAX,
        ensures
            final(self).spec_start() == old(self).spec_start() + by,
            final(self).spec_width() == old(self).spec_width(),
            final(self).spec_end_time() == old(self).spec_end_time(),
    {
        proof {
            use_type_invariant(&*self);
        }
        self.start = self.start + by as u64;
    }

    /// Whether the block's last sample is at or past the end of the stage.
    pub fn is_ending(&self) -> (r: bool)
        ensures
            r == (self.spec_last() >= self.spec_end_time()),
    {
        proof {
            use_type_invariant(self);
        }
        let below = self.width as u64 - 1;
        below >= self.stage_end_time as u64 || self.start >= self.stage_end_time as u64 - below
    }

    /// Whether the block holds the end of the stage: its last sample is at
    /// or past the end, and its first sample before it.
    pub fn is_intersecting_end(&self) -> (r: bool)
        ensures
            r == (self.spec_last() >= self.spec_end_time() && self.spec_start() < self.spec_end_time()),
    {
        self.is_ending() && self.start < self.stage_end_time as u64
    }

    /// The time of the block's first sample.
    pub fn simd_array_start(&self) -> (r: u64)
        ensures
            r == self.spec_start(),
    {
        self.start
    }

    /// The time of the block's last sample.
    pub fn simd_array_end(&self) -> (r: u64)
        requires
            self.spec_last() <= u64::MAX,
        ensures
            r == self.spec_last(),
    {
        proof {
            use_type_invariant(self);
        }
        self.start + (self.width as u64 - 1)
    }
}


} // verus!
