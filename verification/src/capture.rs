//! The buffer between the audio callback and the analysis, and the pace of both.
use crate::spectrum::FFT_SIZE;
use vstd::prelude::*;
use vstd::slice::slice_subrange;
use vstd::slice::slice_to_vec;

verus! {

/// How many samples the buffer may hold.
pub const BUFFER_LIMIT: usize = FFT_SIZE * 8;

/// How many of them stay where there are more.
pub const BUFFER_KEPT: usize = FFT_SIZE * 4;

/// The last samples of a stream.
pub struct SampleBuffer<T> {
    pub samples: Vec<T>,
}

/// What is left of the samples where there are more than the buffer may hold: the last of them.
pub open spec fn cut<T>(samples: Seq<T>) -> Seq<T> {
    if samples.len() > BUFFER_LIMIT {
        samples.skip(samples.len() - BUFFER_KEPT)
    } else {
        samples
    }
}

/// The window to analyze: the last samples, and silence where there are too few.
pub open spec fn window_of<T>(samples: Seq<T>, silence: T) -> Seq<T> {
    if samples.len() >= FFT_SIZE {
        samples.skip(samples.len() - FFT_SIZE)
    } else {
        Seq::new(FFT_SIZE as nat, |i: int| silence)
    }
}

impl<T: Copy> SampleBuffer<T> {
    /// A buffer without samples.
    pub fn new() -> (r: Self)
        ensures
            r.samples@ == Seq::<T>::empty(),
    {
        SampleBuffer { samples: Vec::with_capacity(BUFFER_KEPT) }
    }

    /// Takes the next samples of the stream in.
    pub fn extend(&mut self, data: &[T])
        requires
            old(self).samples@.len() + data@.len() <= usize::MAX,
        ensures
            final(self).samples@ == cut(old(self).samples@ + data@),
    {
        let ghost before = self.samples@;
        let mut i: usize = 0;
        assert(before + data@.take(0) =~= before);
        while i < data.len()
            invariant
                i <= data.len(),
                self.samples@ == before + data@.take(i as int),
            decreases data.len() - i,
        {
            self.samples.push(data[i]);
            assert(self.samples@ =~= before + data@.take(i + 1));
            i = i + 1;
        }
        assert(data@.take(i as int) =~= data@);
        if self.samples.len() > BUFFER_LIMIT {
            let drain: usize = self.samples.len() - BUFFER_KEPT;
            let kept: &[T] = slice_subrange(self.samples.as_slice(), drain, self.samples.len());
            self.samples = slice_to_vec(kept);
            assert(self.samples@ =~= cut(before + data@));
        }
    }

    /// The window to analyze.
    pub fn window(&self, silence: T) -> (r: Vec<T>)
        ensures
            r@ == window_of(self.samples@, silence),
    {
        let n: usize = self.samples.len();
        if n >= FFT_SIZE {
            let last: &[T] = slice_subrange(self.samples.as_slice(), n - FFT_SIZE, n);
            assert(last@ =~= window_of(self.samples@, silence));
            return slice_to_vec(last);
        }
        let mut r: Vec<T> = Vec::with_capacity(FFT_SIZE);
        while r.len() < FFT_SIZE
            invariant
                r.len() <= FFT_SIZE,
                forall|j: int| 0 <= j < r.len() ==> r@[j] == silence,
            decreases FFT_SIZE - r.len(),
        {
            r.push(silence);
        }
        assert(r@ =~= window_of(self.samples@, silence));
        r
    }
}

// ---------------------------------------------------------------------------
// Pace
// ---------------------------------------------------------------------------

/// How long to wait before the next round, in nanoseconds: what is left of the time that a round
/// takes. `None` where nothing is left.
pub fn pause_after(elapsed: u128, round: u64) -> (r: Option<u64>)
    ensures
        r == (if elapsed < round {
            Some((round - elapsed) as u64)
        } else {
            None
        }),
        r matches Some(pause) ==> elapsed + pause == round,
        r is None <==> elapsed >= round,
{
    if elapsed < round as u128 {
        Some((round as u128 - elapsed) as u64)
    } else {
        None
    }
}

/// How long a frame takes, in whole milliseconds.
pub fn frame_millis(fps: u32) -> (r: u64)
    requires
        fps > 0,
    ensures
        r == 1000int / (fps as int),
        r * fps <= 1000 < (r + 1) * fps,
{
    proof {
        let f = fps as int;
        let q = 1000int / f;
        vstd::arithmetic::div_mod::lemma_fundamental_div_mod(1000, f);
        vstd::arithmetic::div_mod::lemma_mod_bound(1000, f);
        assert(q * f == f * q && (q + 1) * f == f * q + f) by (nonlinear_arith);
    }
    1000 / fps as u64
}

/// Brings a frame rate for the screen mode between 1 and 60.
pub fn clamp_fps(fps: u32) -> (r: u32)
    ensures
        r == (if fps < 1 {
            1
        } else if fps > 60 {
            60
        } else {
            fps
        }),
        1 <= r <= 60,
        1 <= fps <= 60 ==> r == fps,
        fps > 60 ==> r == 60,
{
    if fps < 1 {
        1
    } else if fps > 60 {
        60
    } else {
        fps
    }
}

// ---------------------------------------------------------------------------
// Laws
// ---------------------------------------------------------------------------

/// All samples of a stream that came in blocks.
pub open spec fn stream<T>(blocks: Seq<Seq<T>>) -> Seq<T>
    decreases blocks.len(),
{
    if blocks.len() == 0 {
        seq![]
    } else {
        stream(blocks.drop_last()) + blocks.last()
    }
}

/// What the buffer holds after the blocks.
pub open spec fn buffered<T>(blocks: Seq<Seq<T>>) -> Seq<T>
    decreases blocks.len(),
{
    if blocks.len() == 0 {
        seq![]
    } else {
        cut(buffered(blocks.drop_last()) + blocks.last())
    }
}

/// The buffer holds the end of the stream: never more than its limit, and never less than what it
/// keeps while the stream has as much.
pub proof fn buffer_is_the_end_of_the_stream<T>(blocks: Seq<Seq<T>>)
    ensures
        buffered(blocks).len() <= stream(blocks).len(),
        buffered(blocks) == stream(blocks).skip(stream(blocks).len() - buffered(blocks).len()),
        buffered(blocks).len() <= BUFFER_LIMIT,
        buffered(blocks).len() >= BUFFER_KEPT || buffered(blocks) == stream(blocks),
    decreases blocks.len(),
{
    let s = stream(blocks);
    let b = buffered(blocks);
    if blocks.len() == 0 {
        assert(b =~= s.skip(0));
    } else {
        buffer_is_the_end_of_the_stream(blocks.drop_last());
        let s0 = stream(blocks.drop_last());
        let b0 = buffered(blocks.drop_last());
        let grown = b0 + blocks.last();
        assert(grown =~= s.skip(s.len() - grown.len()));
        assert(b =~= s.skip(s.len() - b.len()));
        if b0 == s0 && grown.len() <= BUFFER_LIMIT {
            assert(b =~= s);
        }
    }
}

/// The window is the end of the stream, however the stream was cut into blocks, once the stream has
/// filled it.
pub proof fn window_is_the_end_of_the_stream<T>(blocks: Seq<Seq<T>>, silence: T)
    ensures
        window_of(buffered(blocks), silence) == window_of(stream(blocks), silence),
{
    buffer_is_the_end_of_the_stream(blocks);
    let s = stream(blocks);
    let b = buffered(blocks);
    if s.len() >= FFT_SIZE {
        assert(b.len() >= FFT_SIZE);
        assert(b.skip(b.len() - FFT_SIZE) =~= s.skip(s.len() - FFT_SIZE));
    }
}

/// Up to 16384 samples stay as they are, and of more the last 8192 stay.
pub proof fn too_many_samples_are_cut_to_the_last<T>(samples: Seq<T>, i: int)
    ensures
        samples.len() <= 16384 ==> cut(samples) == samples,
        samples.len() > 16384 ==> cut(samples).len() == 8192,
        samples.len() > 16384 && 0 <= i < 8192 ==> cut(samples)[i] == samples[samples.len() - 8192
            + i],
{
}

/// The window has 2048 samples: the last ones, or silence all over where there are fewer.
pub proof fn window_is_the_last_samples_or_silence<T>(samples: Seq<T>, silence: T, i: int)
    requires
        0 <= i < 2048,
    ensures
        window_of(samples, silence).len() == 2048,
        window_of(samples, silence)[i] == (if samples.len() >= 2048 {
            samples[samples.len() - 2048 + i]
        } else {
            silence
        }),
{
}

} // verus!
