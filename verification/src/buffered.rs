use vstd::prelude::*;

use crate::audio_stream::ChannelCount;

verus! {

/// Whether a read of `len` interleaved samples fits the channel layout:
/// the length (as a 32-bit count) is a multiple of the channel count.
pub fn read_len_fits(len: usize, channels: ChannelCount) -> (r: bool)
    ensures
        r == ((len as u32) % channels.spec_count() as u32 == 0),
{
    let count = channels.count() as u32;
    (len as u32) % count == 0
}

/// Whether the render thread is ahead by over about 10% of the last read:
/// it then waits before rendering more.
pub open spec fn spec_render_ahead(samples: i64, last_requested: i64) -> bool {
    let x = last_requested * 110;
    samples > (if x >= 0 {
        x / 100
    } else {
        -((-x) / 100)
    })
}

/// Whether the render thread is ahead by over about 10% of the last read.
pub fn render_ahead(samples: i64, last_requested: i64) -> (r: bool)
    requires
        i64::MIN <= last_requested * 110 <= i64::MAX,
    ensures
        r == spec_render_ahead(samples, last_requested),
{
    samples > last_requested * 110 / 100
}

/// The time, in nanoseconds, the render thread allows itself for one
/// render of `size` samples at `sample_rate`: the real time of the
/// samples, times 90/100, so that a render thread that is behind catches
/// up. The size is taken as a 32-bit count, as the duration arithmetic
/// does.
pub open spec fn spec_render_delay_nanos(size: usize, sample_rate: u32) -> int {
    (1_000_000_000 * (size as u32) / (sample_rate as int)) * 90 / 100
}

/// The time, in nanoseconds, the render thread allows itself for one
/// render of `size` samples at `sample_rate`.
pub fn render_delay_nanos(size: usize, sample_rate: u32) -> (r: u128)
    requires
        sample_rate > 0,
    ensures
        r == spec_render_delay_nanos(size, sample_rate),
{
    let frames: u32 = size as u32;
    let total: u128 = 1_000_000_000u128 * (frames as u128);
    let per: u128 = total / (sample_rate as u128);
    assert(per <= total) by (nonlinear_arith)
        requires
            per == total / (sample_rate as u128),
            sample_rate > 0,
    ;
    per * 90 / 100
}

/// The samples left over from the buffers the render thread sent, read
/// before any new buffer.
pub struct SampleRemainder<T> {
    remainder: Vec<T>,
}

impl<T: Copy> SampleRemainder<T> {
    /// The samples left over.
    pub closed spec fn left(&self) -> Seq<T> {
        self.remainder@
    }

    /// No samples left over.
    pub fn new() -> (r: Self)
        ensures
            r.left() == Seq::<T>::empty(),
    {
        SampleRemainder { remainder: Vec::new() }
    }

    /// Whether a new buffer has to be received: the remainder is empty.
    pub fn needs_buffer(&self) -> (r: bool)
        ensures
            r == (self.left().len() == 0),
    {
        self.remainder.len() == 0
    }

    /// Moves samples from the front of `from` into `dest` from position `i`
    /// on, as many as fit; what does not fit becomes the remainder.
    /// Returns the position after the last sample written.
    fn fill_from(&mut self, dest: &mut Vec<T>, i: usize, from: Vec<T>) -> (r: usize)
        requires
            i <= old(dest)@.len(),
        ensures
            ({
                let k = if from@.len() < old(dest)@.len() - i {
                    from@.len() as int
                } else {
                    old(dest)@.len() - i
                };
                &&& r == i + k
                &&& final(dest)@.len() == old(dest)@.len()
                &&& final(dest)@ == old(dest)@.take(i as int) + from@.take(k) + old(dest)@.skip(i + k)
                &&& final(self).left() == from@.skip(k)
            }),
    {
        let n = dest.len();
        let k = if from.len() < n - i {
            from.len()
        } else {
            n - i
        };
        let mut j: usize = 0;
        while j < k
            invariant
                k <= from@.len(),
                i + k <= n,
                n == old(dest)@.len(),
                dest@.len() == n,
                0 <= j <= k,
                dest@ == old(dest)@.take(i as int) + from@.take(j as int) + old(dest)@.skip(i + j),
            decreases k - j,
        {
            dest.set(i + j, from[j]);
            j = j + 1;
            assert(dest@ =~= old(dest)@.take(i as int) + from@.take(j as int) + old(dest)@.skip(i + j));
        }
        let mut rest: Vec<T> = Vec::new();
        let mut m: usize = k;
        while m < from.len()
            invariant
                k <= m <= from@.len(),
                rest@ == from@.subrange(k as int, m as int),
            decreases from@.len() - m,
        {
            rest.push(from[m]);
            m = m + 1;
            assert(rest@ =~= from@.subrange(k as int, m as int));
        }
        assert(rest@ =~= from@.skip(k as int));
        self.remainder = rest;
        i + k
    }

    /// Starts a read into `dest`: the left-over samples go first, as many as
    /// fit. Returns the number of samples written.
    pub fn read_remainder(&mut self, dest: &mut Vec<T>) -> (r: usize)
        ensures
            ({
                let k = if old(self).left().len() < old(dest)@.len() {
                    old(self).left().len() as int
                } else {
                    old(dest)@.len() as int
                };
                &&& r == k
                &&& final(dest)@ == old(self).left().take(k) + old(dest)@.skip(k)
                &&& final(self).left() == old(self).left().skip(k)
            }),
    {
        let mut from: Vec<T> = Vec::new();
        std::mem::swap(&mut from, &mut self.remainder);
        let r = self.fill_from(dest, 0, from);
        proof {
            assert(old(dest)@.take(0) + from@.take(r as int) =~= from@.take(r as int));
        }
        r
    }

    /// Goes on with a read into `dest` from position `i` with a buffer
    /// received from the render thread: as many of its samples as fit are
    /// written, the rest becomes the remainder. Returns the position after
    /// the last sample written.
    pub fn read_buffer(&mut self, dest: &mut Vec<T>, i: usize, buf: Vec<T>) -> (r: usize)
        requires
            i <= old(dest)@.len(),
        ensures
            ({
                let k = if buf@.len() < old(dest)@.len() - i {
                    buf@.len() as int
                } else {
                    old(dest)@.len() - i
                };
                &&& r == i + k
                &&& final(dest)@ == old(dest)@.take(i as int) + buf@.take(k) + old(dest)@.skip(i + k)
                &&& final(self).left() == buf@.skip(k)
            }),
    {
        self.fill_from(dest, i, buf)
    }
}

/// The render loads last recorded, newest first, at most 100.
pub struct LoadHistory<L> {
    loads: Vec<L>,
}

/// The number of render loads kept.
pub const LOAD_HISTORY_LEN: usize = 100;

impl<L> LoadHistory<L> {
    /// At most `LOAD_HISTORY_LEN` loads are kept.
    #[verifier::type_invariant]
    spec fn inv(self) -> bool {
        self.loads@.len() <= LOAD_HISTORY_LEN
    }

    /// The loads, newest first.
    pub closed spec fn loads(&self) -> Seq<L> {
        self.loads@
    }

    /// No loads recorded.
    pub fn new() -> (r: Self)
        ensures
            r.loads() == Seq::<L>::empty(),
    {
        LoadHistory { loads: Vec::new() }
    }

    /// Records a load as the newest; the oldest is dropped when more than
    /// 100 are kept.
    pub fn record(&mut self, load: L)
        ensures
            final(self).loads() == if old(self).loads().len() + 1 > LOAD_HISTORY_LEN {
                seq![load] + old(self).loads().drop_last()
            } else {
                seq![load] + old(self).loads()
            },
            final(self).loads().len() <= LOAD_HISTORY_LEN,
    {
        proof {
            use_type_invariant(&*self);
        }
        let mut loads: Vec<L> = Vec::new();
        std::mem::swap(&mut loads, &mut self.loads);
        loads.insert(0, load);
        if loads.len() > LOAD_HISTORY_LEN {
            loads.pop();
        }
        self.loads = loads;
        proof {
            if old(self).loads().len() + 1 > LOAD_HISTORY_LEN {
                assert(self.loads@ =~= seq![load] + old(self).loads().drop_last());
            } else {
                assert(self.loads@ =~= seq![load] + old(self).loads());
            }
        }
    }

    /// The number of loads kept.
    pub fn len(&self) -> (r: usize)
        ensures
            r == self.loads().len(),
    {
        self.loads.len()
    }

    /// The newest load, if any.
    pub fn newest(&self) -> (r: Option<&L>)
        ensures
            r == (if self.loads().len() > 0 {
                Some(&self.loads()[0])
            } else {
                None
            }),
    {
        if self.loads.len() > 0 {
            Some(&self.loads[0])
        } else {
            None
        }
    }

    /// The load at position `i` (0 is the newest).
    pub fn get(&self, i: usize) -> (r: &L)
        requires
            i < self.loads().len(),
        ensures
            *r == self.loads()[i as int],
    {
        &self.loads[i]
    }
}

} // verus!
