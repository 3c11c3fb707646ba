//! Peak-hold metering: the shared peak vector and the per-cycle
//! aggregation that feeds it.
//!
//! A `PeakBuffer` holds one peak level per channel. A real-time producer
//! folds each cycle's sample magnitudes into it with `aggregate` (or a
//! pre-reduced vector with `accumulate`), and a consumer takes the held
//! peaks with `drain`, which resets every channel to zero. A channel's
//! drained level is therefore the largest magnitude submitted for it since
//! the previous drain.

use vstd::prelude::*;

verus! {

/// The larger of two levels.
pub open spec fn level_max(a: u32, b: u32) -> u32 {
    if a >= b {
        a
    } else {
        b
    }
}

/// The peak of a block of sample magnitudes; zero for an empty block.
pub open spec fn peak_of(block: Seq<u32>) -> u32
    decreases block.len(),
{
    if block.len() == 0 {
        0u32
    } else {
        level_max(peak_of(block.drop_last()), block.last())
    }
}

/// An all-zero peak vector for `n` channels.
pub open spec fn zero_levels(n: nat) -> Seq<u32> {
    Seq::new(n, |i: int| 0u32)
}

/// The peak of a concatenation is the larger of the two peaks.
pub proof fn lemma_peak_of_concat(a: Seq<u32>, b: Seq<u32>)
    ensures
        peak_of(a + b) == level_max(peak_of(a), peak_of(b)),
    decreases b.len(),
{
    if b.len() == 0 {
        assert(a + b =~= a);
    } else {
        assert((a + b).drop_last() =~= a + b.drop_last());
        lemma_peak_of_concat(a, b.drop_last());
    }
}

/// The peak is the true maximum: no sample exceeds it, and a non-empty
/// block contains it.
pub proof fn lemma_peak_of_is_max(block: Seq<u32>)
    ensures
        forall|i: int| 0 <= i < block.len() ==> block[i] <= peak_of(block),
        block.len() > 0 ==> block.contains(peak_of(block)),
    decreases block.len(),
{
    if block.len() > 0 {
        lemma_peak_of_is_max(block.drop_last());
        assert(forall|i: int|
            0 <= i < block.len() - 1 ==> block[i] == block.drop_last()[i]);
        assert(peak_of(block) == level_max(peak_of(block.drop_last()), block.last()));
        assert(block.last() == block[block.len() - 1]);
        if block.len() > 1 && peak_of(block) == peak_of(block.drop_last()) {
            let j = choose|j: int|
                0 <= j < block.drop_last().len() && block.drop_last()[j] == peak_of(
                    block.drop_last(),
                );
            assert(block[j] == peak_of(block));
        } else {
            assert(block[block.len() - 1] == peak_of(block));
        }
    }
}

/// The peak of a block; zero when the block is empty, so that folding it
/// into a held level leaves that level unchanged.
pub fn block_peak(block: &Vec<u32>) -> (r: u32)
    ensures
        r == peak_of(block@),
{
    let mut peak: u32 = 0;
    let mut i: usize = 0;
    while i < block.len()
        invariant
            i <= block@.len(),
            peak == peak_of(block@.take(i as int)),
        decreases block@.len() - i,
    {
        let s = block[i];
        proof {
            assert(block@.take(i + 1).drop_last() =~= block@.take(i as int));
            assert(block@.take(i + 1).last() == block@[i as int]);
        }
        if s > peak {
            peak = s;
        }
        i = i + 1;
    }
    proof {
        assert(block@.take(block@.len() as int) =~= block@);
    }
    peak
}

/// The fixed-size store of per-channel peak levels: each channel holds the
/// largest magnitude submitted for it since the previous drain.
pub struct PeakBuffer {
    levels: Vec<u32>,
}

impl View for PeakBuffer {
    type V = Seq<u32>;

    closed spec fn view(&self) -> Seq<u32> {
        self.levels@
    }
}

impl PeakBuffer {
    /// A buffer of `n` channels, all starting at zero.
    pub fn new(n: usize) -> (r: PeakBuffer)
        ensures
            r@ == zero_levels(n as nat),
    {
        let mut levels: Vec<u32> = Vec::new();
        let mut i: usize = 0;
        while i < n
            invariant
                i <= n,
                levels@.len() == i,
                forall|j: int| 0 <= j < i ==> levels@[j] == 0u32,
            decreases n - i,
        {
            levels.push(0);
            i = i + 1;
        }
        proof {
            assert(levels@ =~= zero_levels(n as nat));
        }
        PeakBuffer { levels }
    }

    /// The channel count fixed at construction.
    pub fn channel_count(&self) -> (n: usize)
        ensures
            n == self@.len(),
    {
        self.levels.len()
    }

    /// Fold one vector of per-channel peaks into the buffer: each channel
    /// keeps the larger of its held level and the submitted one.
    pub fn accumulate(&mut self, levels: &Vec<u32>)
        requires
            levels@.len() == old(self)@.len(),
        ensures
            final(self)@.len() == old(self)@.len(),
            forall|i: int|
                0 <= i < old(self)@.len() ==> final(self)@[i] == level_max(
                    old(self)@[i],
                    levels@[i],
                ),
    {
        let ghost orig = self.levels@;
        let n = self.levels.len();
        let mut i: usize = 0;
        while i < n
            invariant
                i <= n,
                n == orig.len(),
                levels@.len() == orig.len(),
                self.levels@.len() == orig.len(),
                forall|j: int| 0 <= j < i ==> self.levels@[j] == level_max(orig[j], levels@[j]),
                forall|j: int| i <= j < orig.len() ==> self.levels@[j] == orig[j],
            decreases n - i,
        {
            if levels[i] > self.levels[i] {
                let v = levels[i];
                self.levels[i] = v;
            }
            i = i + 1;
        }
    }

    /// One real-time cycle: fold each channel's block of sample magnitudes
    /// into the held peaks. An empty block leaves its channel unchanged.
    pub fn aggregate(&mut self, blocks: &Vec<Vec<u32>>)
        requires
            blocks@.len() == old(self)@.len(),
        ensures
            final(self)@.len() == old(self)@.len(),
            forall|i: int|
                0 <= i < old(self)@.len() ==> final(self)@[i] == level_max(
                    old(self)@[i],
                    peak_of(blocks@[i]@),
                ),
    {
        let ghost orig = self.levels@;
        let n = self.levels.len();
        let mut i: usize = 0;
        while i < n
            invariant
                i <= n,
                n == orig.len(),
                blocks@.len() == orig.len(),
                self.levels@.len() == orig.len(),
                forall|j: int|
                    0 <= j < i ==> self.levels@[j] == level_max(orig[j], peak_of(blocks@[j]@)),
                forall|j: int| i <= j < orig.len() ==> self.levels@[j] == orig[j],
            decreases n - i,
        {
            let p = block_peak(&blocks[i]);
            if p > self.levels[i] {
                self.levels[i] = p;
            }
            i = i + 1;
        }
    }

    /// Take the held peaks and reset every channel to zero: the peak-hold
    /// read-and-reset. The buffer's length never changes.
    pub fn drain(&mut self) -> (r: Vec<u32>)
        ensures
            r@ == old(self)@,
            final(self)@ == zero_levels(old(self)@.len()),
    {
        let n = self.levels.len();
        let mut fresh = PeakBuffer::new(n);
        core::mem::swap(&mut self.levels, &mut fresh.levels);
        fresh.levels
    }
}

/// The held peaks after a sequence of aggregation cycles, starting from a
/// freshly drained (all-zero) buffer of `n` channels; `cycles[c][i]` is the
/// block of sample magnitudes submitted for channel `i` in cycle `c`.
pub open spec fn accumulated_peaks(n: nat, cycles: Seq<Seq<Seq<u32>>>) -> Seq<u32>
    decreases cycles.len(),
{
    if cycles.len() == 0 {
        zero_levels(n)
    } else {
        let prev = accumulated_peaks(n, cycles.drop_last());
        Seq::new(n, |i: int| level_max(prev[i], peak_of(cycles.last()[i])))
    }
}

/// All samples submitted for channel `i` across a sequence of cycles, in
/// submission order.
pub open spec fn samples_of_channel(cycles: Seq<Seq<Seq<u32>>>, i: int) -> Seq<u32>
    decreases cycles.len(),
{
    if cycles.len() == 0 {
        Seq::empty()
    } else {
        samples_of_channel(cycles.drop_last(), i) + cycles.last()[i]
    }
}

/// Peak-hold law: after any sequence of aggregation cycles into a drained
/// buffer, each channel holds exactly the peak of all sample magnitudes
/// submitted for it — and with no cycles at all, every channel holds zero,
/// since the peak of an empty submission is zero.
pub proof fn lemma_peak_hold(n: nat, cycles: Seq<Seq<Seq<u32>>>)
    requires
        forall|c: int| 0 <= c < cycles.len() ==> (#[trigger] cycles[c]).len() == n,
    ensures
        accumulated_peaks(n, cycles).len() == n,
        forall|i: int|
            0 <= i < n ==> accumulated_peaks(n, cycles)[i] == peak_of(
                samples_of_channel(cycles, i),
            ),
    decreases cycles.len(),
{
    if cycles.len() == 0 {
        assert(forall|i: int|
            0 <= i < n ==> samples_of_channel(cycles, i) =~= Seq::<u32>::empty());
    } else {
        lemma_peak_hold(n, cycles.drop_last());
        assert forall|i: int| 0 <= i < n implies accumulated_peaks(n, cycles)[i] == peak_of(
            samples_of_channel(cycles, i),
        ) by {
            lemma_peak_of_concat(samples_of_channel(cycles.drop_last(), i), cycles.last()[i]);
        }
    }
}

} // verus!
