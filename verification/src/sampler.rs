use vstd::prelude::*;

use crate::soundfont::LoopMode;

verus! {

/// Where a sample is read and where it loops: the start offset, and the
/// loop's first and last sample.
#[derive(Debug, Clone, Copy, PartialEq, Eq, Structural)]
pub struct LoopParams {
    pub mode: LoopMode,
    pub offset: u32,
    pub start: u32,
    pub end: u32,
}

/// The position in a looped sample for a position `p` (offset included):
/// past the loop's end it wraps back into the loop.
pub open spec fn looped_position(p: int, start: int, end: int) -> int {
    if p > end {
        (p - end - 1) % (end - start) + start
    } else {
        p
    }
}

/// Something that finds where in its sample a voice reads, and implements
/// the sample's start, end and looping. The sample values themselves are
/// read outside the core, at the position given here.
pub trait SampleReader: Sized {
    /// Whether the read position at voice position `pos` can be computed
    /// without leaving the range of `usize`.
    spec fn position_defined(&self, pos: usize) -> bool;

    /// The sample position read for the voice position `pos`, and the
    /// reader after the read.
    spec fn spec_position(&self, pos: usize) -> (int, Self);

    /// Whether `is_past_end` can be computed at `pos`.
    spec fn end_check_defined(&self, pos: usize) -> bool;

    /// Whether the voice position `pos` is past the end of the sample.
    spec fn spec_past_end(&self, pos: usize) -> bool;

    /// The reader after a release.
    spec fn spec_released(&self) -> Self;

    /// The sample position read for the voice position `pos`.
    fn position(&mut self, pos: usize) -> (r: usize)
        requires
            old(self).position_defined(pos),
        ensures
            (r as int, *final(self)) == old(self).spec_position(pos),
    ;

    /// Whether the voice position `pos` is past the end of the sample.
    fn is_past_end(&self, pos: usize) -> (r: bool)
        requires
            self.end_check_defined(pos),
        ensures
            r == self.spec_past_end(pos),
    ;

    /// Signals the release of the voice.
    fn signal_release(&mut self)
        ensures
            *final(self) == old(self).spec_released(),
    ;
}

/// Reads a sample once, from its offset to its end.
#[derive(Debug, Clone, Copy, PartialEq, Eq, Structural)]
pub struct SampleReaderNoLoop {
    pub length: usize,
    pub offset: usize,
}

impl SampleReaderNoLoop {
    /// The reader for a sample of `length` samples.
    pub fn new(length: usize, loop_params: LoopParams) -> (r: Self)
        ensures
            r == (SampleReaderNoLoop { length, offset: loop_params.offset as usize }),
    {
        SampleReaderNoLoop { length, offset: loop_params.offset as usize }
    }
}

impl SampleReader for SampleReaderNoLoop {
    open spec fn position_defined(&self, pos: usize) -> bool {
        pos + self.offset <= usize::MAX
    }

    open spec fn spec_position(&self, pos: usize) -> (int, Self) {
        (pos + self.offset, *self)
    }

    open spec fn end_check_defined(&self, pos: usize) -> bool {
        self.offset <= pos
    }

    open spec fn spec_past_end(&self, pos: usize) -> bool {
        pos - self.offset >= self.length
    }

    open spec fn spec_released(&self) -> Self {
        *self
    }

    fn position(&mut self, pos: usize) -> (r: usize) {
        pos + self.offset
    }

    fn is_past_end(&self, pos: usize) -> (r: bool) {
        pos - self.offset >= self.length
    }

    fn signal_release(&mut self) {
    }
}

/// Reads a sample from its offset, looping between the loop points for as
/// long as the voice plays.
#[derive(Debug, Clone, Copy, PartialEq, Eq, Structural)]
pub struct SampleReaderLoop {
    pub offset: usize,
    pub loop_start: usize,
    pub loop_end: usize,
}

impl SampleReaderLoop {
    /// The reader looping between the loop points of `loop_params`.
    pub fn new(loop_params: LoopParams) -> (r: Self)
        ensures
            r == (SampleReaderLoop {
                offset: loop_params.offset as usize,
                loop_start: loop_params.start as usize,
                loop_end: loop_params.end as usize,
            }),
    {
        SampleReaderLoop {
            offset: loop_params.offset as usize,
            loop_start: loop_params.start as usize,
            loop_end: loop_params.end as usize,
        }
    }
}

impl SampleReader for SampleReaderLoop {
    /// A position past the loop's end is wrapped, which needs the loop's
    /// end after its start.
    open spec fn position_defined(&self, pos: usize) -> bool {
        &&& pos + self.offset <= usize::MAX
        &&& pos + self.offset > self.loop_end ==> self.loop_start < self.loop_end
    }

    open spec fn spec_position(&self, pos: usize) -> (int, Self) {
        (looped_position(pos + self.offset, self.loop_start as int, self.loop_end as int), *self)
    }

    open spec fn end_check_defined(&self, pos: usize) -> bool {
        true
    }

    /// A continuous loop never ends.
    open spec fn spec_past_end(&self, pos: usize) -> bool {
        false
    }

    open spec fn spec_released(&self) -> Self {
        *self
    }

    fn position(&mut self, pos: usize) -> (r: usize) {
        let p = pos + self.offset;
        if p > self.loop_end {
            (p - self.loop_end - 1) % (self.loop_end - self.loop_start) + self.loop_start
        } else {
            p
        }
    }

    fn is_past_end(&self, pos: usize) -> (r: bool) {
        false
    }

    fn signal_release(&mut self) {
    }
}

/// Reads a sample from its offset, looping between the loop points until
/// the release; from then on it plays on from the loop's end to the end of
/// the sample.
#[derive(Debug, Clone, Copy, PartialEq, Eq, Structural)]
pub struct SampleReaderLoopSustain {
    pub length: usize,
    pub offset: usize,
    pub loop_start: usize,
    pub loop_end: usize,
    pub last: usize,
    pub is_released: bool,
}

impl SampleReaderLoopSustain {
    /// The reader for a sample of `length` samples looping between the loop
    /// points of `loop_params` until released.
    pub fn new(length: usize, loop_params: LoopParams) -> (r: Self)
        ensures
            r == (SampleReaderLoopSustain {
                length,
                offset: loop_params.offset as usize,
                loop_start: loop_params.start as usize,
                loop_end: loop_params.end as usize,
                last: 0,
                is_released: false,
            }),
    {
        SampleReaderLoopSustain {
            length,
            offset: loop_params.offset as usize,
            loop_start: loop_params.start as usize,
            loop_end: loop_params.end as usize,
            last: 0,
            is_released: false,
        }
    }
}

impl SampleReader for SampleReaderLoopSustain {
    /// Before the release a position past the loop's end is wrapped, which
    /// needs the loop's end after its start; after it, the position is
    /// counted from the last position read before the release.
    open spec fn position_defined(&self, pos: usize) -> bool {
        &&& pos + self.offset <= usize::MAX
        &&& !self.is_released && pos + self.offset > self.loop_end ==> self.loop_start < self.loop_end
        &&& self.is_released ==> self.last <= pos + self.offset && pos + self.offset - self.last + self.loop_end
            <= usize::MAX
    }

    /// Before the release the reader remembers the position it read.
    open spec fn spec_position(&self, pos: usize) -> (int, Self) {
        if !self.is_released {
            (
                looped_position(pos + self.offset, self.loop_start as int, self.loop_end as int),
                SampleReaderLoopSustain { last: (pos + self.offset) as usize, ..*self },
            )
        } else {
            (pos + self.offset - self.last + self.loop_end, *self)
        }
    }

    open spec fn end_check_defined(&self, pos: usize) -> bool {
        self.last + self.offset <= pos
    }

    open spec fn spec_past_end(&self, pos: usize) -> bool {
        pos - self.last - self.offset >= self.length
    }

    /// The loop stops.
    open spec fn spec_released(&self) -> Self {
        SampleReaderLoopSustain { is_released: true, ..*self }
    }

    fn position(&mut self, pos: usize) -> (r: usize) {
        let p = pos + self.offset;
        if !self.is_released {
            self.last = p;
            if p > self.loop_end {
                (p - self.loop_end - 1) % (self.loop_end - self.loop_start) + self.loop_start
            } else {
                p
            }
        } else {
            p - self.last + self.loop_end
        }
    }

    fn is_past_end(&self, pos: usize) -> (r: bool) {
        pos - self.last - self.offset >= self.length
    }

    fn signal_release(&mut self) {
        self.is_released = true;
    }
}

/// The reader a voice uses for its loop mode: looping for the continuous
/// and sustain loop modes, once otherwise.
#[derive(Debug, Clone, Copy, PartialEq, Eq, Structural)]
pub enum SampleReaders {
    NoLoop(SampleReaderNoLoop),
    Loop(SampleReaderLoop),
    LoopSustain(SampleReaderLoopSustain),
}

impl SampleReaders {
    /// The reader for a sample of `length` samples played with `loop_params`.
    pub fn new(length: usize, loop_params: LoopParams) -> (r: Self)
        ensures
            r == match loop_params.mode {
                LoopMode::LoopContinuous => SampleReaders::Loop(SampleReaderLoop {
                    offset: loop_params.offset as usize,
                    loop_start: loop_params.start as usize,
                    loop_end: loop_params.end as usize,
                }),
                LoopMode::LoopSustain => SampleReaders::LoopSustain(SampleReaderLoopSustain {
                    length,
                    offset: loop_params.offset as usize,
                    loop_start: loop_params.start as usize,
                    loop_end: loop_params.end as usize,
                    last: 0,
                    is_released: false,
                }),
                _ => SampleReaders::NoLoop(SampleReaderNoLoop { length, offset: loop_params.offset as usize }),
            },
    {
        match loop_params.mode {
            LoopMode::LoopContinuous => SampleReaders::Loop(SampleReaderLoop::new(loop_params)),
            LoopMode::LoopSustain => SampleReaders::LoopSustain(SampleReaderLoopSustain::new(length, loop_params)),
            _ => SampleReaders::NoLoop(SampleReaderNoLoop::new(length, loop_params)),
        }
    }
}

impl SampleReader for SampleReaders {
    open spec fn position_defined(&self, pos: usize) -> bool {
        match *self {
            SampleReaders::NoLoop(r) => r.position_defined(pos),
            SampleReaders::Loop(r) => r.position_defined(pos),
            SampleReaders::LoopSustain(r) => r.position_defined(pos),
        }
    }

    open spec fn spec_position(&self, pos: usize) -> (int, Self) {
        match *self {
            SampleReaders::NoLoop(r) => (r.spec_position(pos).0, SampleReaders::NoLoop(r.spec_position(pos).1)),
            SampleReaders::Loop(r) => (r.spec_position(pos).0, SampleReaders::Loop(r.spec_position(pos).1)),
            SampleReaders::LoopSustain(r) => (
                r.spec_position(pos).0,
                SampleReaders::LoopSustain(r.spec_position(pos).1),
            ),
        }
    }

    open spec fn end_check_defined(&self, pos: usize) -> bool {
        match *self {
            SampleReaders::NoLoop(r) => r.end_check_defined(pos),
            SampleReaders::Loop(r) => r.end_check_defined(pos),
            SampleReaders::LoopSustain(r) => r.end_check_defined(pos),
        }
    }

    open spec fn spec_past_end(&self, pos: usize) -> bool {
        match *self {
            SampleReaders::NoLoop(r) => r.spec_past_end(pos),
            SampleReaders::Loop(r) => r.spec_past_end(pos),
            SampleReaders::LoopSustain(r) => r.spec_past_end(pos),
        }
    }

    open spec fn spec_released(&self) -> Self {
        match *self {
            SampleReaders::NoLoop(r) => SampleReaders::NoLoop(r.spec_released()),
            SampleReaders::Loop(r) => SampleReaders::Loop(r.spec_released()),
            SampleReaders::LoopSustain(r) => SampleReaders::LoopSustain(r.spec_released()),
        }
    }

    fn position(&mut self, pos: usize) -> (r: usize) {
        match self {
            SampleReaders::NoLoop(r) => r.position(pos),
            SampleReaders::Loop(r) => r.position(pos),
            SampleReaders::LoopSustain(r) => r.position(pos),
        }
    }

    fn is_past_end(&self, pos: usize) -> (r: bool) {
        match self {
            SampleReaders::NoLoop(r) => r.is_past_end(pos),
            SampleReaders::Loop(r) => r.is_past_end(pos),
            SampleReaders::LoopSustain(r) => r.is_past_end(pos),
        }
    }

    fn signal_release(&mut self) {
        match self {
            SampleReaders::NoLoop(r) => r.signal_release(),
            SampleReaders::Loop(r) => r.signal_release(),
            SampleReaders::LoopSustain(r) => r.signal_release(),
        }
    }
}

/// The value of a sample buffer at position `pos`; past its end, `zero`.
pub fn buffer_get<T: Copy>(buffer: &[T], pos: usize, zero: T) -> (r: T)
    ensures
        r == if pos < buffer@.len() {
            buffer@[pos as int]
        } else {
            zero
        },
{
    if pos < buffer.len() {
        buffer[pos]
    } else {
        zero
    }
}

/// A looped position wraps into the loop: after its end, it lands between
/// the loop's start and end.
pub proof fn lemma_looped_in_loop(p: int, start: int, end: int)
    requires
        0 <= start < end,
        p > end,
    ensures
        start <= looped_position(p, start, end) < end,
{
}

} // verus!
