//! The PCM audio buffer: interleaved samples with frame-rate and channel
//! metadata, and the in-place transforms a key-detection engine wants as
//! preprocessing.
//!
//! A sample is a signed 32-bit fixed-point value standing for a normalized
//! amplitude in [-1.0, 1.0]; the buffer never interprets the scale except
//! linearly, when averaging a frame's channels down to mono. Samples are
//! interleaved by channel: frame 0 channel 0, frame 0 channel 1, ...,
//! frame 1 channel 0, and so on.

use vstd::prelude::*;
use vstd::arithmetic::div_mod::lemma_div_is_ordered;
use vstd::arithmetic::div_mod::lemma_div_multiples_vanish;
use vstd::arithmetic::div_mod::lemma_fundamental_div_mod;
use vstd::arithmetic::div_mod::lemma_mod_division_less_than_divisor;

verus! {

/// The mathematical content of an [`AudioData`] buffer: the sample sequence
/// and its metadata, with nothing of the representation.
#[verifier::ext_equal]
pub struct AudioDataView {
    /// The interleaved samples, in order.
    pub samples: Seq<i32>,
    /// Samples per second per channel; 0 means unconfigured.
    pub frame_rate: u32,
    /// Number of interleaved channels; 0 means unconfigured.
    pub channels: u32,
}

/// Number of whole frames the buffer holds: `samples.len() / channels`,
/// and 0 when the channel count is unconfigured.
pub open spec fn frame_count_of(v: AudioDataView) -> nat {
    if v.channels == 0 {
        0
    } else {
        v.samples.len() / (v.channels as nat)
    }
}

/// Sum of a sequence of samples, as a mathematical integer.
pub open spec fn seq_sum(s: Seq<i32>) -> int
    decreases s.len(),
{
    if s.len() == 0 {
        0
    } else {
        seq_sum(s.drop_last()) + s.last()
    }
}

/// Mean of frame `i`'s samples in an interleaved sequence with `c` channels,
/// rounding toward negative infinity.
pub open spec fn frame_mean(s: Seq<i32>, c: nat, i: int) -> int {
    seq_sum(s.subrange(i * c, i * c + c)) / (c as int)
}

/// The mono reduction of an interleaved sample sequence with `c >= 1`
/// channels: one sample per whole frame, the mean of that frame's channels,
/// in frame order. A trailing partial frame is dropped.
pub open spec fn mono_of(s: Seq<i32>, c: nat) -> Seq<i32> {
    Seq::new(s.len() / c, |i: int| frame_mean(s, c, i) as i32)
}

/// The whole effect of [`AudioData::reduce_to_mono`] on a buffer: a no-op
/// when the buffer is already mono, unconfigured, or empty; otherwise the
/// samples become their mono reduction and the channel count becomes 1.
pub open spec fn mono_reduced(v: AudioDataView) -> AudioDataView {
    if v.channels <= 1 || v.samples.len() == 0 {
        v
    } else {
        AudioDataView {
            samples: mono_of(v.samples, v.channels as nat),
            frame_rate: v.frame_rate,
            channels: 1,
        }
    }
}

/// Number of frames decimation by `f >= 1` keeps out of `frames`: the
/// ceiling of `frames / f`, since frame 0 is always kept.
pub open spec fn kept_frames(frames: nat, f: nat) -> nat {
    if frames == 0 {
        0
    } else {
        (frames - 1) as nat / f + 1
    }
}

/// The decimation of an interleaved sample sequence with `c >= 1` channels
/// by a factor `f >= 1`: every `f`-th frame is kept whole (all of its
/// channels together), in order, starting with frame 0. A trailing partial
/// frame is dropped.
pub open spec fn decimated(s: Seq<i32>, c: nat, f: nat) -> Seq<i32> {
    Seq::new(
        kept_frames(s.len() / c, f) * c,
        |j: int| s[(j / (c as int)) * (f as int) * (c as int) + j % (c as int)],
    )
}

/// The whole effect of [`AudioData::downsample`] on a buffer: a no-op for a
/// factor of 0 or 1; otherwise the frame rate is divided by the factor
/// (flooring) and, where the channel count is configured, only every
/// `factor`-th frame is kept.
pub open spec fn downsampled(v: AudioDataView, factor: u32) -> AudioDataView {
    if factor <= 1 {
        v
    } else {
        AudioDataView {
            samples: if v.channels == 0 {
                v.samples
            } else {
                decimated(v.samples, v.channels as nat, factor as nat)
            },
            frame_rate: v.frame_rate / factor,
            channels: v.channels,
        }
    }
}

/// The whole effect of [`AudioData::append`] on a buffer: the new samples go
/// to the end, in order, and the metadata is untouched.
pub open spec fn appended(v: AudioDataView, s: Seq<i32>) -> AudioDataView {
    AudioDataView { samples: v.samples + s, ..v }
}

/// Whether a buffer's metadata is fit to hand to the analysis engine:
/// a positive frame rate, a positive channel count, and a sample count
/// that is a whole number of frames.
pub open spec fn is_analysis_ready(v: AudioDataView) -> bool {
    &&& v.frame_rate > 0
    &&& v.channels > 0
    &&& v.samples.len() % (v.channels as nat) == 0
}

/// Multiplying a flooring quotient back by its divisor cannot exceed the dividend.
proof fn lemma_div_mul_le(x: int, d: int)
    requires
        0 <= x,
        0 < d,
    ensures
        (x / d) * d <= x,
{
    lemma_fundamental_div_mod(x, d);
    lemma_mod_division_less_than_divisor(x, d);
    assert((x / d) * d == d * (x / d)) by (nonlinear_arith);
}

/// Extending a subrange of samples by one element adds that element to its sum.
proof fn lemma_seq_sum_extend(s: Seq<i32>, a: int, b: int)
    requires
        0 <= a <= b < s.len(),
    ensures
        seq_sum(s.subrange(a, b + 1)) == seq_sum(s.subrange(a, b)) + s[b],
{
    let t = s.subrange(a, b + 1);
    assert(t.drop_last() =~= s.subrange(a, b));
    assert(t.last() == s[b]);
}

/// The sum of a sample sequence is bounded by its length times the sample range.
proof fn lemma_seq_sum_bounds(s: Seq<i32>)
    ensures
        (-0x8000_0000) * s.len() <= seq_sum(s) <= 0x7fff_ffff * s.len(),
    decreases s.len(),
{
    if s.len() > 0 {
        lemma_seq_sum_bounds(s.drop_last());
    }
}

/// The mean of a whole frame's samples is itself in the sample range.
proof fn lemma_frame_mean_in_range(s: Seq<i32>, c: nat, i: int)
    requires
        1 <= c,
        0 <= i,
        i * c + c <= s.len(),
    ensures
        -0x8000_0000 <= frame_mean(s, c, i) <= 0x7fff_ffff,
{
    let sub = s.subrange(i * c, i * c + c);
    assert(sub.len() == c);
    lemma_seq_sum_bounds(sub);
    let sum = seq_sum(sub);
    let ci = c as int;
    assert(ci * (-0x8000_0000) <= sum <= ci * 0x7fff_ffff);
    lemma_div_is_ordered(ci * (-0x8000_0000), sum, ci);
    lemma_div_multiples_vanish(-0x8000_0000, ci);
    lemma_div_is_ordered(sum, ci * 0x7fff_ffff, ci);
    lemma_div_multiples_vanish(0x7fff_ffff, ci);
}

/// Container for decoded PCM audio samples.
///
/// Created empty and unconfigured; filled by [`AudioData::append`] and shaped
/// by [`AudioData::reduce_to_mono`] and [`AudioData::downsample`] before it is
/// handed to the analysis engine. Every operation is total: inconsistent
/// metadata (say, a channel count of zero beside a non-empty sample sequence)
/// is representable and only matters at the engine boundary, which callers
/// guard with [`AudioData::analysis_ready`].
pub struct AudioData {
    samples: Vec<i32>,
    frame_rate: u32,
    channels: u32,
}

impl View for AudioData {
    type V = AudioDataView;

    closed spec fn view(&self) -> AudioDataView {
        AudioDataView { samples: self.samples@, frame_rate: self.frame_rate, channels: self.channels }
    }
}

impl AudioData {
    /// Create a new empty container with frame rate and channel count unset.
    pub fn new() -> (a: AudioData)
        ensures
            a@ == (AudioDataView { samples: Seq::<i32>::empty(), frame_rate: 0, channels: 0 }),
    {
        let a = AudioData { samples: Vec::new(), frame_rate: 0, channels: 0 };
        proof {
            assert(a@ =~= AudioDataView { samples: Seq::<i32>::empty(), frame_rate: 0, channels: 0 });
        }
        a
    }

    /// Create a container holding the given samples, with frame rate and
    /// channel count still unset.
    pub fn from_samples(samples: Vec<i32>) -> (a: AudioData)
        ensures
            a@ == (AudioDataView { samples: samples@, frame_rate: 0, channels: 0 }),
    {
        AudioData { samples, frame_rate: 0, channels: 0 }
    }

    /// Set the sample rate of the audio (e.g., 44100, 48000).
    pub fn set_frame_rate(&mut self, frame_rate: u32)
        ensures
            final(self)@ == (AudioDataView { frame_rate, ..old(self)@ }),
    {
        self.frame_rate = frame_rate;
    }

    /// Get the sample rate of the audio.
    pub fn frame_rate(&self) -> (r: u32)
        ensures
            r == self@.frame_rate,
    {
        self.frame_rate
    }

    /// Set the number of audio channels (1 for mono, 2 for stereo, etc.).
    pub fn set_channels(&mut self, channels: u32)
        ensures
            final(self)@ == (AudioDataView { channels, ..old(self)@ }),
    {
        self.channels = channels;
    }

    /// Get the number of audio channels.
    pub fn channels(&self) -> (r: u32)
        ensures
            r == self@.channels,
    {
        self.channels
    }

    /// Get the total number of samples currently in the container.
    pub fn sample_count(&self) -> (n: usize)
        ensures
            n == self@.samples.len(),
    {
        self.samples.len()
    }

    /// Get the total number of frames (samples per channel); 0 when the
    /// channel count is unconfigured.
    pub fn frame_count(&self) -> (n: usize)
        ensures
            n == frame_count_of(self@),
    {
        if self.channels == 0 {
            0
        } else {
            self.samples.len() / (self.channels as usize)
        }
    }

    /// Read the samples currently in the container, in order.
    pub fn samples(&self) -> (r: &Vec<i32>)
        ensures
            r@ == self@.samples,
    {
        &self.samples
    }

    /// Append the given samples to the end of the buffer, preserving order.
    /// A no-op on empty input; metadata is untouched.
    pub fn append(&mut self, samples: &Vec<i32>)
        ensures
            final(self)@ == appended(old(self)@, samples@),
    {
        self.samples.extend_from_slice(samples.as_slice());
        proof {
            assert(self@.samples =~= old(self)@.samples + samples@);
            assert(self@ =~= appended(old(self)@, samples@));
        }
    }

    /// Replace a multi-channel buffer with one sample per frame, the
    /// arithmetic mean of that frame's per-channel samples (rounded toward
    /// negative infinity), in frame order, and set the channel count to 1.
    /// A no-op if the buffer is already mono, unconfigured, or empty; a
    /// trailing partial frame is dropped.
    pub fn reduce_to_mono(&mut self)
        ensures
            final(self)@ == mono_reduced(old(self)@),
    {
        if self.channels <= 1 || self.samples.len() == 0 {
            return;
        }
        let c: usize = self.channels as usize;
        let frames: usize = self.samples.len() / c;
        let ghost s: Seq<i32> = self@.samples;
        let ghost cn: nat = c as nat;
        proof {
            lemma_div_mul_le(s.len() as int, c as int);
            assert((frames as int) * (c as int) <= s.len());
        }
        let mut out: Vec<i32> = Vec::new();
        let mut i: usize = 0;
        while i < frames
            invariant
                self@ == old(self)@,
                s == self@.samples,
                s.len() <= usize::MAX,
                cn == c as nat,
                2 <= c <= 0xffff_ffff,
                frames == s.len() / cn,
                (frames as int) * (c as int) <= s.len(),
                i <= frames,
                out@.len() == i,
                forall|k: int| 0 <= k < i ==> out@[k] == #[trigger] mono_of(s, cn)[k],
            decreases frames - i,
        {
            assert((i as int) * (c as int) + (c as int) <= s.len()) by (nonlinear_arith)
                requires
                    (i as int) < (frames as int),
                    (frames as int) * (c as int) <= s.len(),
                    (c as int) >= 0,
            ;
            let ghost base: int = (i as int) * (c as int);
            let mut sum: i64 = 0;
            let mut j: usize = 0;
            assert(s.subrange(base, base + 0).len() == 0);
            while j < c
                invariant
                    self@ == old(self)@,
                    s == self@.samples,
                    s.len() <= usize::MAX,
                    2 <= c <= 0xffff_ffff,
                    j <= c,
                    base == (i as int) * (c as int),
                    base + c <= s.len(),
                    sum == seq_sum(s.subrange(base, base + j)),
                    (-0x8000_0000) * (j as int) <= sum <= 0x7fff_ffff * (j as int),
                decreases c - j,
            {
                let idx: usize = i * c + j;
                let sample: i32 = self.samples[idx];
                proof {
                    lemma_seq_sum_extend(s, base, base + j);
                }
                sum = sum + (sample as i64);
                j = j + 1;
            }
            proof {
                lemma_frame_mean_in_range(s, cn, i as int);
            }
            let mean64: i64 = sum.checked_div_euclid(c as i64).unwrap();
            assert(mean64 == frame_mean(s, cn, i as int));
            let mean: i32 = mean64 as i32;
            out.push(mean);
            proof {
                assert(mono_of(s, cn)[i as int] == frame_mean(s, cn, i as int) as i32);
            }
            i = i + 1;
        }
        self.samples = out;
        self.channels = 1;
        proof {
            assert(self@.samples =~= mono_of(s, cn));
            assert(self@ =~= mono_reduced(old(self)@));
        }
    }

    /// Keep only every `factor`-th frame (plain decimation, not filtered
    /// resampling), whole frames at a time, and divide the frame rate by
    /// `factor` (flooring). A factor of 0 or 1 is a no-op; with the channel
    /// count unconfigured the samples are left alone; a trailing partial
    /// frame is dropped.
    pub fn downsample(&mut self, factor: u32)
        ensures
            final(self)@ == downsampled(old(self)@, factor),
    {
        if factor <= 1 {
            return;
        }
        self.frame_rate = self.frame_rate / factor;
        if self.channels == 0 {
            proof {
                assert(self@ =~= downsampled(old(self)@, factor));
            }
            return;
        }
        let ghost mid: AudioDataView = self@;
        let c: usize = self.channels as usize;
        let f: usize = factor as usize;
        let frames: usize = self.samples.len() / c;
        let ghost s: Seq<i32> = self@.samples;
        let ghost cn: nat = c as nat;
        let ghost fn_: nat = f as nat;
        proof {
            lemma_div_mul_le(s.len() as int, c as int);
            assert((frames as int) * (c as int) <= s.len());
        }
        let kept: usize = if frames == 0 {
            0
        } else {
            proof {
                lemma_div_mul_le((frames - 1) as int, f as int);
                lemma_div_is_ordered(0, (frames - 1) as int, f as int);
            }
            (frames - 1) / f + 1
        };
        proof {
            assert(kept as nat == kept_frames(frames as nat, fn_));
            assert(kept == 0 || ((kept as int) - 1) * (f as int) <= (frames as int) - 1);
            assert(decimated(s, cn, fn_).len() == (kept as int) * (c as int));
        }
        let mut out: Vec<i32> = Vec::new();
        let mut i: usize = 0;
        assert((i as int) * (c as int) == 0) by (nonlinear_arith)
            requires (i as int) == 0,
        ;
        while i < kept
            invariant
                self@ == mid,
                s == self@.samples,
                s.len() <= usize::MAX,
                cn == c as nat,
                fn_ == f as nat,
                1 <= c <= 0xffff_ffff,
                2 <= f <= 0xffff_ffff,
                frames == s.len() / cn,
                (frames as int) * (c as int) <= s.len(),
                kept == 0 || ((kept as int) - 1) * (f as int) <= (frames as int) - 1,
                decimated(s, cn, fn_).len() == (kept as int) * (c as int),
                i <= kept,
                out@.len() == (i as int) * (c as int),
                forall|m: int|
                    0 <= m < out@.len() ==> out@[m] == #[trigger] decimated(s, cn, fn_)[m],
            decreases kept - i,
        {
            assert((i as int) * (f as int) <= (frames as int) - 1) by (nonlinear_arith)
                requires
                    (i as int) <= (kept as int) - 1,
                    ((kept as int) - 1) * (f as int) <= (frames as int) - 1,
                    (f as int) >= 0,
            ;
            let stride: usize = i * f;
            assert((stride as int) * (c as int) + (c as int) <= s.len()) by (nonlinear_arith)
                requires
                    (stride as int) <= (frames as int) - 1,
                    (frames as int) * (c as int) <= s.len(),
                    (c as int) >= 1,
            ;
            let start: usize = stride * c;
            let mut j: usize = 0;
            while j < c
                invariant
                    self@ == mid,
                    s == self@.samples,
                    s.len() <= usize::MAX,
                    cn == c as nat,
                    fn_ == f as nat,
                    1 <= c <= 0xffff_ffff,
                    2 <= f <= 0xffff_ffff,
                    j <= c,
                    stride == (i as int) * (f as int),
                    start == (stride as int) * (c as int),
                    start + c <= s.len(),
                    i < kept,
                    decimated(s, cn, fn_).len() == (kept as int) * (c as int),
                    out@.len() == (i as int) * (c as int) + j,
                    forall|m: int|
                        0 <= m < out@.len() ==> out@[m] == #[trigger] decimated(s, cn, fn_)[m],
                decreases c - j,
            {
                let idx: usize = start + j;
                let sample: i32 = self.samples[idx];
                proof {
                    let m: int = (i as int) * (c as int) + (j as int);
                    vstd::arithmetic::div_mod::lemma_fundamental_div_mod_converse_div(
                        m, c as int, i as int, j as int);
                    vstd::arithmetic::div_mod::lemma_fundamental_div_mod_converse_mod(
                        m, c as int, i as int, j as int);
                    assert(0 <= m < (kept as int) * (c as int)) by (nonlinear_arith)
                        requires
                            0 <= (i as int) < (kept as int),
                            0 <= (j as int) < (c as int),
                            m == (i as int) * (c as int) + (j as int),
                    ;
                    assert(decimated(s, cn, fn_)[m] == s[(m / (c as int)) * (f as int) * (c as int) + m % (c as int)]);
                    assert(decimated(s, cn, fn_)[m] == s[idx as int]);
                }
                out.push(sample);
                j = j + 1;
            }
            proof {
                assert(((i as int) + 1) * (c as int) == (i as int) * (c as int) + (c as int))
                    by (nonlinear_arith);
            }
            i = i + 1;
        }
        self.samples = out;
        proof {
            assert(self@.samples =~= decimated(s, cn, fn_));
            assert(self@ =~= downsampled(old(self)@, factor));
        }
    }

    /// Whether this buffer may be handed to the analysis engine: positive
    /// frame rate, positive channel count, and a whole number of frames.
    pub fn analysis_ready(&self) -> (r: bool)
        ensures
            r == is_analysis_ready(self@),
    {
        self.frame_rate > 0 && self.channels > 0
            && self.samples.len() % (self.channels as usize) == 0
    }
}

/// A configured buffer holding a whole number of frames satisfies
/// `frame_count * channels == sample_count`.
pub proof fn lemma_frame_count_times_channels(v: AudioDataView)
    requires
        v.channels > 0,
        v.samples.len() % (v.channels as nat) == 0,
    ensures
        frame_count_of(v) * (v.channels as nat) == v.samples.len(),
{
    let ci = v.channels as int;
    let n = v.samples.len() as int;
    lemma_fundamental_div_mod(n, ci);
    assert((n / ci) * ci == ci * (n / ci)) by (nonlinear_arith);
}

/// Appending two batches one after the other yields the same buffer as
/// appending their concatenation at once: `append` preserves order and
/// is associative over batches.
pub proof fn lemma_append_in_batches(v: AudioDataView, s1: Seq<i32>, s2: Seq<i32>)
    ensures
        appended(appended(v, s1), s2) == appended(v, s1 + s2),
{
    assert((v.samples + s1) + s2 =~= v.samples + (s1 + s2));
    assert(appended(appended(v, s1), s2) =~= appended(v, s1 + s2));
}

/// Reducing a buffer to mono twice is the same as reducing it once: after
/// one reduction the buffer is mono (or was left alone), so the second
/// application changes nothing.
pub proof fn lemma_reduce_to_mono_idempotent(v: AudioDataView)
    ensures
        mono_reduced(mono_reduced(v)) == mono_reduced(v),
{
}

/// Mono reduction of a two-channel buffer `[l0, r0, l1, r1]` yields the two
/// per-frame channel means `[(l0 + r0) / 2, (l1 + r1) / 2]` (the division
/// flooring, as everywhere in this module).
pub proof fn lemma_mono_of_stereo_pairs(l0: i32, r0: i32, l1: i32, r1: i32)
    ensures
        mono_of(seq![l0, r0, l1, r1], 2) == seq![((l0 + r0) / 2) as i32, ((l1 + r1) / 2) as i32],
{
    let s = seq![l0, r0, l1, r1];
    assert(s.subrange(0, 2) =~= seq![l0, r0]);
    assert(s.subrange(2, 4) =~= seq![l1, r1]);
    assert(seq![l0, r0].drop_last() =~= seq![l0]);
    assert(seq![l1, r1].drop_last() =~= seq![l1]);
    assert(seq![l0].drop_last() =~= Seq::<i32>::empty());
    assert(seq![l1].drop_last() =~= Seq::<i32>::empty());
    assert(seq_sum(Seq::<i32>::empty()) == 0);
    assert(seq_sum(seq![l0]) == l0);
    assert(seq_sum(seq![l1]) == l1);
    assert(seq_sum(s.subrange(0, 2)) == l0 + r0);
    assert(seq_sum(s.subrange(2, 4)) == l1 + r1);
    assert(frame_mean(s, 2, 0) == (l0 + r0) / 2);
    assert(frame_mean(s, 2, 1) == (l1 + r1) / 2);
    assert(mono_of(s, 2) =~= seq![((l0 + r0) / 2) as i32, ((l1 + r1) / 2) as i32]);
}

/// Downsampling a mono four-frame buffer by a factor of 2 keeps frames
/// 0 and 2 and halves the frame rate.
pub proof fn lemma_downsample_two_mono(s0: i32, s1: i32, s2: i32, s3: i32, rate: u32)
    ensures
        downsampled(
            AudioDataView { samples: seq![s0, s1, s2, s3], frame_rate: rate, channels: 1 },
            2,
        ) == (AudioDataView { samples: seq![s0, s2], frame_rate: rate / 2, channels: 1 }),
{
    let s = seq![s0, s1, s2, s3];
    let d = decimated(s, 1, 2);
    assert(s.len() / 1nat == 4);
    assert(kept_frames(4, 2) == 2);
    assert(d.len() == 2);
    assert(d[0] == s[(0int / 1int) * 2int * 1int + 0int % 1int]);
    assert(d[1] == s[(1int / 1int) * 2int * 1int + 1int % 1int]);
    assert(d =~= seq![s0, s2]);
    assert(downsampled(
        AudioDataView { samples: s, frame_rate: rate, channels: 1 },
        2,
    ) =~= AudioDataView { samples: seq![s0, s2], frame_rate: rate / 2, channels: 1 });
}

/// Downsampling by a factor of 0 or 1 is a no-op: samples, frame rate and
/// channel count are all unchanged.
pub proof fn lemma_downsample_noop_factor(v: AudioDataView, factor: u32)
    requires
        factor <= 1,
    ensures
        downsampled(v, factor) == v,
{
}

impl Default for AudioData {
    /// An empty, unconfigured container, the same as [`AudioData::new`].
    fn default() -> (a: AudioData)
        ensures
            a@ == (AudioDataView { samples: Seq::<i32>::empty(), frame_rate: 0, channels: 0 }),
    {
        AudioData::new()
    }
}

} // verus!
