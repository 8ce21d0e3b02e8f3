//! The decisions of the spectrum analysis: what is worth analyzing, which bins belong to which band,
//! and how loud the loudest band is.
use crate::config::{FrequencySet, NUM_BANDS};
use crate::single::Single;
use vstd::prelude::*;

verus! {

/// FFT sample size (a power of 2).
pub const FFT_SIZE: usize = 2048;

/// The level below which there is nothing to hear: 0.0005.
pub open spec fn quiet_level() -> Single {
    Single { bits: 0x3a03126f }
}

/// Zero.
pub open spec fn zero() -> Single {
    Single { bits: 0 }
}

/// The quiet level is five ten-thousandths, rounded to the nearest number there is.
pub proof fn quiet_level_is_decimal()
    ensures
        quiet_level().nearest_to(5, 10000),
{
    vstd::arithmetic::power2::lemma2_to64();
    vstd::arithmetic::power2::lemma2_to64_rest();
}

/// The sample size is a power of two.
pub proof fn fft_size_is_a_power_of_two()
    ensures
        FFT_SIZE == vstd::arithmetic::power2::pow2(11),
{
    vstd::arithmetic::power2::lemma2_to64();
}

// ---------------------------------------------------------------------------
// Levels
// ---------------------------------------------------------------------------

/// The largest of the numbers, and of zero. What is no number is passed over.
pub open spec fn largest(levels: Seq<Single>) -> Single
    decreases levels.len(),
{
    if levels.len() == 0 {
        zero()
    } else {
        largest(levels.drop_last()).larger(levels.last())
    }
}

/// The numbers without their signs.
pub open spec fn unsigned_all(samples: Seq<Single>) -> Seq<Single> {
    Seq::new(samples.len(), |i: int| samples[i].unsigned())
}

/// The peak of a block of samples: the largest magnitude.
pub fn peak(samples: &[Single]) -> (r: Single)
    ensures
        r == largest(unsigned_all(samples@)),
{
    let mut r: Single = Single { bits: 0 };
    let mut i: usize = 0;
    let ghost all = unsigned_all(samples@);
    assert(all.take(0) =~= seq![]);
    while i < samples.len()
        invariant
            i <= samples.len(),
            all == unsigned_all(samples@),
            r == largest(all.take(i as int)),
        decreases samples.len() - i,
    {
        assert(all.take(i + 1).drop_last() =~= all.take(i as int));
        r = r.max(samples[i].abs());
        i = i + 1;
    }
    assert(all.take(i as int) =~= all);
    r
}

/// Whether a block of samples is worth analyzing: it is long enough, and its peak is not quiet.
pub fn worth_analyzing(samples: &[Single]) -> (r: bool)
    ensures
        r == (samples@.len() >= FFT_SIZE && !largest(unsigned_all(samples@)).below(quiet_level())),
        r <==> samples@.len() >= 2048 && exists|i: int|
            0 <= i < samples@.len() && crate::single::is_number(#[trigger] samples@[i])
                && crate::single::worth(samples@[i]) >= crate::single::worth(quiet_level()),
{
    proof {
        quiet_peak_is_quiet_all_over(samples@);
    }
    if samples.len() < FFT_SIZE {
        return false;
    }
    !peak(samples).lt(Single { bits: 0x3a03126f })
}

/// The level of the loudest band. `None` where that is quiet.
pub fn loudest(levels: &[Single; NUM_BANDS]) -> (r: Option<Single>)
    ensures
        r == (if largest(levels@).below(quiet_level()) {
            None
        } else {
            Some(largest(levels@))
        }),
        r is None <==> forall|i: int|
            0 <= i < 8 && crate::single::is_number(#[trigger] levels@[i]) ==> crate::single::value(
                levels@[i],
            ) < crate::single::value(quiet_level()),
        r matches Some(top) ==> levels@.contains(top) && crate::single::is_number(top)
            && forall|i: int|
            0 <= i < 8 && crate::single::is_number(#[trigger] levels@[i]) ==> crate::single::value(
                levels@[i],
            ) <= crate::single::value(top),
{
    proof {
        loudest_level_is_quiet_or_one_of_them(levels@);
    }
    let mut max: Single = Single { bits: 0 };
    let mut i: usize = 0;
    assert(levels@.take(0) =~= seq![]);
    while i < NUM_BANDS
        invariant
            i <= NUM_BANDS,
            max == largest(levels@.take(i as int)),
        decreases NUM_BANDS - i,
    {
        assert(levels@.take(i + 1).drop_last() =~= levels@.take(i as int));
        max = max.max(levels[i]);
        i = i + 1;
    }
    assert(levels@.take(i as int) =~= levels@);
    if max.lt(Single { bits: 0x3a03126f }) {
        None
    } else {
        Some(max)
    }
}

/// `largest` is a number that none of the numbers exceeds, and it is one of them or zero.
pub proof fn largest_is_largest(levels: Seq<Single>)
    ensures
        !largest(levels).nan(),
        zero().at_most(largest(levels)),
        forall|i: int|
            0 <= i < levels.len() && !levels[i].nan() ==> (#[trigger] levels[i]).at_most(
                largest(levels),
            ),
        largest(levels) == zero() || levels.contains(largest(levels)),
    decreases levels.len(),
{
    if levels.len() > 0 {
        let before = levels.drop_last();
        largest_is_largest(before);
        assert forall|i: int| 0 <= i < levels.len() && !levels[i].nan() implies (
        #[trigger] levels[i]).at_most(largest(levels)) by {
            if i < before.len() {
                assert(before[i] == levels[i]);
            }
        }
        if largest(levels) != zero() {
            if largest(levels) == largest(before) {
                let i = before.index_of(largest(before));
                assert(levels[i] == largest(levels));
            } else {
                assert(levels[levels.len() - 1] == largest(levels));
            }
        }
    }
}

// ---------------------------------------------------------------------------
// Following a level
// ---------------------------------------------------------------------------

/// The reference of a band after a frame: a level above it takes its place, and else it decays.
/// `decayed` is the reference after the decay.
pub fn follow(raw: Single, reference: Single, decayed: Single) -> (r: Single)
    ensures
        r == (if reference.below(raw) {
            raw
        } else {
            decayed
        }),
        r == raw || r == decayed,
        crate::single::is_number(raw) && crate::single::is_number(reference)
            && crate::single::value(reference) < crate::single::value(raw) ==> r == raw,
        !(crate::single::is_number(raw) && crate::single::is_number(reference)
            && crate::single::value(reference) < crate::single::value(raw)) ==> r == decayed,
{
    proof {
        crate::single::order_is_that_of_the_values(reference, raw);
    }
    if reference.lt(raw) {
        raw
    } else {
        decayed
    }
}

/// The share that the smoothed level of a band keeps: the smaller one while the level rises, so that
/// the attack is fast, and else that of the band.
pub fn kept_share(raw: Single, smoothed: Single, rising: Single, falling: Single) -> (r: Single)
    ensures
        r == (if smoothed.below(raw) {
            rising
        } else {
            falling
        }),
        r == rising || r == falling,
        crate::single::is_number(raw) && crate::single::is_number(smoothed)
            && crate::single::value(smoothed) < crate::single::value(raw) ==> r == rising,
        !(crate::single::is_number(raw) && crate::single::is_number(smoothed)
            && crate::single::value(smoothed) < crate::single::value(raw)) ==> r == falling,
{
    proof {
        crate::single::order_is_that_of_the_values(smoothed, raw);
    }
    if smoothed.lt(raw) {
        rising
    } else {
        falling
    }
}

// ---------------------------------------------------------------------------
// Bins and bands
// ---------------------------------------------------------------------------

/// The highest frequency to look at, in hertz: half the sample rate, but not above 20 kHz.
pub fn upper_frequency(sample_rate: u32) -> (r: u32)
    ensures
        r == (if sample_rate / 2 < 20000 {
            sample_rate / 2
        } else {
            20000
        }),
        r <= 20000,
        2 * r <= sample_rate,
        r == 20000 || sample_rate - 2 * r <= 1,
{
    let half: u32 = sample_rate / 2;
    if half < 20000 {
        half
    } else {
        20000
    }
}

/// Whether a frequency belongs to a band: the low limit does, the high limit does not.
pub open spec fn in_band(frequency: Single, band: (Single, Single, Single)) -> bool {
    band.0.at_most(frequency) && frequency.below(band.1)
}

/// The bins of a band: the places of its frequencies, in their order.
pub open spec fn bins_in_band(
    frequencies: Seq<Single>,
    band: (Single, Single, Single),
) -> Seq<usize>
    decreases frequencies.len(),
{
    if frequencies.len() == 0 {
        seq![]
    } else {
        let before = bins_in_band(frequencies.drop_last(), band);
        if in_band(frequencies.last(), band) {
            before.push((frequencies.len() - 1) as usize)
        } else {
            before
        }
    }
}

/// Collects the bins of one band.
fn collect_bins(frequencies: &[Single], band: (Single, Single, Single)) -> (r: Vec<usize>)
    ensures
        r@ == bins_in_band(frequencies@, band),
{
    let mut r: Vec<usize> = Vec::new();
    let mut i: usize = 0;
    assert(frequencies@.take(0) =~= seq![]);
    while i < frequencies.len()
        invariant
            i <= frequencies.len(),
            r@ == bins_in_band(frequencies@.take(i as int), band),
        decreases frequencies.len() - i,
    {
        assert(frequencies@.take(i + 1).drop_last() =~= frequencies@.take(i as int));
        let f: Single = frequencies[i];
        if band.0.le(f) && f.lt(band.1) {
            r.push(i);
        }
        i = i + 1;
    }
    assert(frequencies@.take(i as int) =~= frequencies@);
    r
}

/// For each band of a frequency set the bins that belong to it. Where bands overlap, a bin belongs to
/// each of them.
pub fn assign_bins(frequencies: &[Single], set: &FrequencySet) -> (r: Vec<Vec<usize>>)
    ensures
        r.len() == NUM_BANDS,
        forall|b: int|
            0 <= b < NUM_BANDS ==> (#[trigger] r@[b])@ == bins_in_band(
                frequencies@,
                set@.bands[b],
            ),
        forall|b: int, i: usize|
            0 <= b < NUM_BANDS ==> (#[trigger] r@[b]@.contains(i) <==> i < frequencies@.len()
                && crate::single::is_number(frequencies@[i as int]) && crate::single::is_number(
                set.bands@[b].0,
            ) && crate::single::is_number(set.bands@[b].1) && crate::single::value(
                set.bands@[b].0,
            ) <= crate::single::value(frequencies@[i as int]) < crate::single::value(
                set.bands@[b].1,
            )),
{
    let mut r: Vec<Vec<usize>> = Vec::new();
    let mut b: usize = 0;
    while b < NUM_BANDS
        invariant
            b <= NUM_BANDS,
            r.len() == b,
            forall|j: int|
                0 <= j < b ==> (#[trigger] r@[j])@ == bins_in_band(frequencies@, set@.bands[j]),
        decreases NUM_BANDS - b,
    {
        r.push(collect_bins(frequencies, set.bands[b]));
        b = b + 1;
    }
    let count: usize = frequencies.len();
    proof {
        assert(frequencies@.len() == count);
        assert forall|b: int, i: usize| 0 <= b < NUM_BANDS implies (#[trigger] r@[b]@.contains(i)
            <==> i < frequencies@.len() && crate::single::is_number(frequencies@[i as int])
            && crate::single::is_number(set.bands@[b].0) && crate::single::is_number(set.bands@[b].1)
            && crate::single::value(set.bands@[b].0) <= crate::single::value(
            frequencies@[i as int],
        ) < crate::single::value(set.bands@[b].1)) by {
            bins_lie_between_the_limits(frequencies@, set.bands@[b]);
            assert(r@[b]@ == bins_in_band(frequencies@, set@.bands[b]));
        }
    }
    r
}

/// A bin is among those of a band exactly where its frequency belongs to the band, and the bins of a
/// band ascend.
pub proof fn bins_are_those_in_band(frequencies: Seq<Single>, band: (Single, Single, Single))
    requires
        frequencies.len() <= usize::MAX,
    ensures
        forall|i: usize|
            #[trigger] bins_in_band(frequencies, band).contains(i) <==> i < frequencies.len()
                && in_band(frequencies[i as int], band),
        forall|a: int, b: int|
            0 <= a < b < bins_in_band(frequencies, band).len() ==> bins_in_band(frequencies, band)[a]
                < bins_in_band(frequencies, band)[b],
    decreases frequencies.len(),
{
    if frequencies.len() > 0 {
        let shorter = frequencies.drop_last();
        bins_are_those_in_band(shorter, band);
        let before = bins_in_band(shorter, band);
        let all = bins_in_band(frequencies, band);
        let last = (frequencies.len() - 1) as usize;
        assert forall|i: usize| #[trigger] all.contains(i) <==> i < frequencies.len() && in_band(
            frequencies[i as int],
            band,
        ) by {
            assert(before.contains(i) <==> i < shorter.len() && in_band(shorter[i as int], band));
            if before.contains(i) {
                let k = before.index_of(i);
                assert(all[k] == i);
            }
            if all.contains(i) && !before.contains(i) {
                let k = all.index_of(i);
                assert(k == before.len());
            }
            if i == last && in_band(frequencies.last(), band) {
                assert(all[before.len() as int] == i);
            }
        }
        assert forall|a: int, b: int| 0 <= a < b < all.len() implies all[a] < all[b] by {
            assert(before.contains(before[a]));
            if b < before.len() {
                assert(before[a] < before[b]);
            }
        }
    }
}

/// A bin belongs to a band exactly where its frequency is a number from the low limit on and below the
/// high limit, and the bins of a band ascend. So no frequency that some band covers is lost.
pub proof fn bins_lie_between_the_limits(
    frequencies: Seq<Single>,
    band: (Single, Single, Single),
)
    requires
        frequencies.len() <= usize::MAX,
    ensures
        forall|i: usize|
            #[trigger] bins_in_band(frequencies, band).contains(i) <==> i < frequencies.len()
                && crate::single::is_number(frequencies[i as int]) && crate::single::is_number(
                band.0,
            ) && crate::single::is_number(band.1) && crate::single::value(band.0)
                <= crate::single::value(frequencies[i as int]) < crate::single::value(band.1),
        forall|a: int, b: int|
            0 <= a < b < bins_in_band(frequencies, band).len() ==> bins_in_band(frequencies, band)[a]
                < bins_in_band(frequencies, band)[b],
{
    bins_are_those_in_band(frequencies, band);
    assert forall|i: usize|
        #[trigger] bins_in_band(frequencies, band).contains(i) <==> i < frequencies.len()
            && crate::single::is_number(frequencies[i as int]) && crate::single::is_number(band.0)
            && crate::single::is_number(band.1) && crate::single::value(band.0)
            <= crate::single::value(frequencies[i as int]) < crate::single::value(band.1) by {
        crate::single::order_is_that_of_the_values(band.0, frequencies[i as int]);
        crate::single::order_is_that_of_the_values(frequencies[i as int], band.1);
    }
}

/// Zero is worth nothing, and the quiet level something.
pub proof fn zero_is_below_quiet()
    ensures
        zero() == (Single { bits: 0 }),
        crate::single::value(zero()) == 0,
        zero().below(quiet_level()),
{
}

/// The largest number is worth as much as any of the numbers, and as much as one of them or nothing.
pub proof fn largest_by_value(levels: Seq<Single>, i: int)
    requires
        0 <= i < levels.len(),
    ensures
        crate::single::is_number(largest(levels)),
        0 <= crate::single::value(largest(levels)),
        crate::single::is_number(levels[i]) ==> crate::single::value(levels[i])
            <= crate::single::value(largest(levels)),
        largest(levels) == (Single { bits: 0 }) || levels.contains(largest(levels)),
{
    largest_is_largest(levels);
    crate::single::order_is_that_of_the_values(zero(), largest(levels));
    crate::single::order_is_that_of_the_values(levels[i], largest(levels));
}

/// The largest level is quiet where all of them are, and else it is one of them.
proof fn loudest_level_is_quiet_or_one_of_them(levels: Seq<Single>)
    ensures
        largest(levels).below(quiet_level()) <==> forall|i: int|
            0 <= i < levels.len() && crate::single::is_number(#[trigger] levels[i])
                ==> crate::single::value(levels[i]) < crate::single::value(quiet_level()),
        !largest(levels).below(quiet_level()) ==> levels.contains(largest(levels)),
        crate::single::is_number(largest(levels)),
        forall|i: int|
            0 <= i < levels.len() && crate::single::is_number(#[trigger] levels[i])
                ==> crate::single::value(levels[i]) <= crate::single::value(largest(levels)),
{
    let top = largest(levels);
    largest_is_largest(levels);
    zero_is_below_quiet();
    crate::single::order_is_that_of_the_values(top, quiet_level());
    crate::single::order_is_that_of_the_values(zero(), quiet_level());
    assert forall|i: int|
        0 <= i < levels.len() && crate::single::is_number(
            #[trigger] levels[i],
        ) implies crate::single::value(levels[i]) <= crate::single::value(top) by {
        crate::single::order_is_that_of_the_values(levels[i], top);
    }
    if levels.contains(top) {
        let k = levels.index_of(top);
        assert(levels[k] == top);
    }
}

/// The peak of samples is quiet exactly where every sample that is a number is quiet, whatever its
/// sign.
pub proof fn quiet_peak_is_quiet_all_over(samples: Seq<Single>)
    ensures
        largest(unsigned_all(samples)).below(quiet_level()) <==> forall|i: int|
            0 <= i < samples.len() && crate::single::is_number(#[trigger] samples[i])
                ==> crate::single::worth(samples[i]) < crate::single::worth(quiet_level()),
{
    let all = unsigned_all(samples);
    let top = largest(all);
    let quiet = quiet_level();
    largest_is_largest(all);
    crate::single::order_is_that_of_the_values(top, quiet);
    assert forall|i: int|
        0 <= i < samples.len() && crate::single::is_number(
            #[trigger] samples[i],
        ) implies crate::single::worth(samples[i]) <= crate::single::value(top) by {
        crate::single::unsigned_keeps_the_worth(samples[i]);
        crate::single::order_is_that_of_the_values(all[i], all[i]);
        assert(all[i].at_most(top));
        crate::single::order_is_that_of_the_values(all[i], top);
    }
    if top == zero() {
        zero_is_below_quiet();
        assert(crate::single::value(top) == 0);
    } else {
        let k = all.index_of(top);
        assert(all[k] == top);
        crate::single::unsigned_keeps_the_worth(samples[k]);
        crate::single::order_is_that_of_the_values(top, top);
        assert(crate::single::is_number(samples[k]));
    }
}

} // verus!
