//! The parts of the audio pipeline that need no floating point: cutting a
//! stream of samples into fixed-length frames, summing interleaved channels,
//! the formats the Opus decoder takes, the resampler's rates and the length
//! of the warm-up frame.
use vstd::prelude::*;
use crate::text::{decimal, owned, push_decimal};

verus! {

/// Collects samples and hands them out in frames of exactly `target_samples`.
#[derive(Debug)]
pub struct FrameReconstructor<T> {
    target_samples: usize,
    buffer: Vec<T>,
}

impl<T: Copy> FrameReconstructor<T> {
    /// The samples waiting for a frame to fill.
    pub closed spec fn buffered(&self) -> Seq<T> {
        self.buffer@
    }

    /// The frame length.
    pub closed spec fn frame_len(&self) -> nat {
        self.target_samples as nat
    }

    /// A reconstructor producing frames of `target_samples` samples.
    pub fn new(target_samples: usize) -> (r: Self)
        ensures
            r.frame_len() == target_samples,
            r.buffered() == Seq::<T>::empty(),
    {
        FrameReconstructor { target_samples, buffer: Vec::new() }
    }

    /// Appends `frame` and takes out every complete frame, oldest first; the
    /// samples that do not fill a frame stay buffered.
    pub fn push(&mut self, frame: &[T]) -> (frames: Vec<Vec<T>>)
        requires
            old(self).frame_len() > 0,
        ensures
            final(self).frame_len() == old(self).frame_len(),
            ({
                let all = old(self).buffered() + frame@;
                let t = old(self).frame_len() as int;
                &&& forall|i: int|
                    0 <= i < frames@.len() ==> (#[trigger] frames@[i])@ == all.subrange(
                        i * t,
                        i * t + t,
                    )
                &&& frames@.len() * t <= all.len()
                &&& final(self).buffered() == all.subrange(frames@.len() * t, all.len() as int)
                &&& final(self).buffered().len() < t
            }),
    {
        let ghost all = self.buffer@ + frame@;
        let ghost t = self.target_samples as int;
        let mut i: usize = 0;
        while i < frame.len()
            invariant
                i <= frame@.len(),
                self.buffer@ == old(self).buffer@ + frame@.take(i as int),
                self.target_samples == old(self).target_samples,
            decreases frame.len() - i,
        {
            self.buffer.push(frame[i]);
            proof {
                assert(frame@.take(i + 1) =~= frame@.take(i as int).push(frame@[i as int]));
            }
            i = i + 1;
        }
        assert(frame@.take(i as int) =~= frame@);
        assert(self.buffer@ =~= all.subrange(0, all.len() as int));
        let mut frames: Vec<Vec<T>> = Vec::new();
        assert(frames@.len() * t == 0) by (nonlinear_arith)
            requires
                frames@.len() == 0,
        ;
        while self.buffer.len() >= self.target_samples
            invariant
                self.target_samples == old(self).target_samples,
                self.target_samples > 0,
                t == self.target_samples,
                frames@.len() * t + self.buffer@.len() == all.len(),
                self.buffer@ == all.subrange(frames@.len() * t, all.len() as int),
                forall|k: int|
                    0 <= k < frames@.len() ==> (#[trigger] frames@[k])@ == all.subrange(k * t, k * t + t),
            decreases self.buffer.len(),
        {
            let ghost j = frames@.len() as int;
            let mut remainder = self.buffer.split_off(self.target_samples);
            std::mem::swap(&mut self.buffer, &mut remainder);
            proof {
                assert((j + 1) * t == j * t + t) by (nonlinear_arith);
                assert(remainder@ =~= all.subrange(j * t, j * t + t));
                assert(self.buffer@ =~= all.subrange(j * t + t, all.len() as int));
            }
            frames.push(remainder);
        }
        frames
    }

    /// Takes out the buffered samples as a last, shorter frame; none when empty.
    pub fn flush(&mut self) -> (rest: Option<Vec<T>>)
        ensures
            final(self).frame_len() == old(self).frame_len(),
            final(self).buffered() == Seq::<T>::empty(),
            old(self).buffered().len() == 0 ==> rest is None,
            old(self).buffered().len() > 0 ==> (rest matches Some(v) && v@ == old(self).buffered()),
    {
        if self.buffer.len() == 0 {
            None
        } else {
            let mut out: Vec<T> = Vec::new();
            std::mem::swap(&mut out, &mut self.buffer);
            Some(out)
        }
    }
}

/// The concatenation of the first `count` frames of length `t` of `all`,
/// followed by the rest of `all`, is `all`: framing loses and repeats nothing.
pub proof fn law_frames_cover_input<T>(all: Seq<T>, t: nat, frames: Seq<Seq<T>>, rest: Seq<T>)
    requires
        t > 0,
        frames.len() * t <= all.len(),
        forall|i: int| 0 <= i < frames.len() ==> #[trigger] frames[i] == all.subrange(i * t, i * t + t),
        rest == all.subrange((frames.len() * t) as int, all.len() as int),
    ensures
        frames.flatten() + rest == all,
    decreases frames.len(),
{
    if frames.len() == 0 {
        assert(rest =~= all);
        assert(frames.flatten() + rest =~= rest);
    } else {
        let tail = all.subrange(t as int, all.len() as int);
        let fs = frames.drop_first();
        assert(fs.len() * t + t == frames.len() * t) by (nonlinear_arith)
            requires
                fs.len() + 1 == frames.len();
        assert forall|i: int| 0 <= i < fs.len() implies #[trigger] fs[i] == tail.subrange(i * t, i * t + t) by {
            let a = i * t;
            assert((i + 1) * t == a + t) by (nonlinear_arith)
                requires
                    a == i * t,
            ;
            assert(a + 2 * t <= frames.len() * t && 0 <= a) by (nonlinear_arith)
                requires
                    a == i * t,
                    0 <= i,
                    i + 2 <= frames.len(),
                    t > 0,
            ;
            assert(fs[i] == frames[i + 1]);
            assert(frames[i + 1] == all.subrange(a + t, a + t + t));
            assert(fs[i] =~= tail.subrange(a, a + t));
        }
        assert(rest =~= tail.subrange((fs.len() * t) as int, tail.len() as int));
        law_frames_cover_input(tail, t, fs, rest);
        assert(frames[0] == all.subrange(0, t as int)) by {
            assert(0 * t == 0);
        }
        assert(frames.flatten() == frames[0] + fs.flatten());
        assert(frames.flatten() + rest =~= all.subrange(0, t as int) + (fs.flatten() + rest));
        assert(all.subrange(0, t as int) + tail =~= all);
    }
}

/// A linear-interpolation resampler from `input_rate` to `output_rate` Hz.
#[derive(Debug, Clone)]
pub struct LinearResampler {
    input_rate: u32,
    output_rate: u32,
}

impl LinearResampler {
    pub fn new(input_rate: u32, output_rate: u32) -> (r: Self)
        ensures
            r.spec_input_rate() == input_rate,
            r.spec_output_rate() == output_rate,
    {
        LinearResampler { input_rate, output_rate }
    }

    pub closed spec fn spec_input_rate(&self) -> u32 {
        self.input_rate
    }

    pub closed spec fn spec_output_rate(&self) -> u32 {
        self.output_rate
    }

    /// The rate of the incoming samples.
    pub fn input_rate(&self) -> (r: u32)
        ensures
            r == self.spec_input_rate(),
    {
        self.input_rate
    }

    /// The rate of the produced samples.
    pub fn output_rate(&self) -> (r: u32)
        ensures
            r == self.spec_output_rate(),
    {
        self.output_rate
    }
}

// =============================================================================
// Interleaved channels
// =============================================================================

/// The sum of the samples of `s`.
pub open spec fn sample_sum(s: Seq<i16>) -> int
    decreases s.len(),
{
    if s.len() == 0 {
        0
    } else {
        sample_sum(s.drop_last()) + s.last()
    }
}

/// How many frames of `ch` interleaved samples `len` samples make; a last,
/// incomplete frame counts.
pub open spec fn frame_count(len: nat, ch: nat) -> nat
    recommends
        ch > 0,
{
    ((len + ch - 1) / ch as int) as nat
}

/// The samples of the `k`-th frame of `ch` interleaved channels; the last
/// frame may be short.
pub open spec fn frame_at(s: Seq<i16>, ch: nat, k: int) -> Seq<i16> {
    let end = if (k + 1) * ch <= s.len() {
        (k + 1) * ch
    } else {
        s.len() as int
    };
    s.subrange(k * ch, end)
}

/// For each frame of `channels` interleaved samples, the sum of its samples;
/// nothing when there are no channels. Dividing each sum by the channel count
/// gives the mono signal.
pub fn channel_sums(samples: &[i16], channels: u8) -> (sums: Vec<i32>)
    ensures
        channels == 0 ==> sums@.len() == 0,
        channels > 0 ==> sums@.len() == frame_count(samples@.len(), channels as nat),
        channels > 0 ==> forall|k: int|
            0 <= k < sums@.len() ==> #[trigger] sums@[k] == sample_sum(
                frame_at(samples@, channels as nat, k),
            ),
{
    let mut sums: Vec<i32> = Vec::new();
    if channels == 0 {
        return sums;
    }
    let ch = channels as usize;
    let n = samples.len();
    let mut start: usize = 0;
    assert(sums@.len() * ch == 0) by (nonlinear_arith)
        requires
            sums@.len() == 0,
    ;
    while start < n
        invariant
            0 < ch <= 255,
            ch == channels as usize,
            n == samples@.len(),
            start <= n,
            sums@.len() * ch <= n ==> start == sums@.len() * ch,
            sums@.len() * ch > n ==> start == n,
            sums@.len() * ch < n + ch,
            forall|k: int|
                0 <= k < sums@.len() ==> #[trigger] sums@[k] == sample_sum(
                    frame_at(samples@, ch as nat, k),
                ),
        decreases n - start,
    {
        let ghost k = sums@.len() as int;
        let end: usize = if n - start >= ch {
            start + ch
        } else {
            n
        };
        let mut acc: i32 = 0;
        let mut j: usize = start;
        while j < end
            invariant
                start <= j <= end,
                end <= n,
                end - start <= ch,
                ch <= 255,
                n == samples@.len(),
                acc == sample_sum(samples@.subrange(start as int, j as int)),
                -32768 * (j - start) <= acc <= 32767 * (j - start),
            decreases end - j,
        {
            proof {
                assert(samples@.subrange(start as int, j + 1).drop_last() =~= samples@.subrange(
                    start as int,
                    j as int,
                ));
            }
            acc = acc + samples[j] as i32;
            j = j + 1;
        }
        proof {
            assert((k + 1) * ch == k * ch + ch) by (nonlinear_arith);
            assert(start == k * ch);
            assert(frame_at(samples@, ch as nat, k) == samples@.subrange(start as int, end as int));
        }
        let ghost prev = sums@;
        sums.push(acc);
        start = end;
        proof {
            assert(sums@.len() * ch == k * ch + ch) by (nonlinear_arith)
                requires
                    sums@.len() == k + 1,
            ;
            assert forall|i: int| 0 <= i < sums@.len() implies #[trigger] sums@[i] == sample_sum(
                frame_at(samples@, ch as nat, i),
            ) by {
                if i < k {
                    assert(sums@[i] == prev[i]);
                }
            }
        }
    }
    proof {
        let k = sums@.len() as int;
        let c = ch as int;
        assert(n <= k * c);
        assert(k == (n + c - 1) / c) by (nonlinear_arith)
            requires
                n <= k * c,
                k * c < n + c,
                c > 0,
        ;
    }
    sums
}

/// The sum of a sequence of frame sums.
pub open spec fn sums_total(s: Seq<i32>) -> int
    decreases s.len(),
{
    if s.len() == 0 {
        0
    } else {
        sums_total(s.drop_last()) + s.last()
    }
}

proof fn lemma_sample_sum_concat(a: Seq<i16>, b: Seq<i16>)
    ensures
        sample_sum(a + b) == sample_sum(a) + sample_sum(b),
    decreases b.len(),
{
    if b.len() == 0 {
        assert(a + b =~= a);
    } else {
        lemma_sample_sum_concat(a, b.drop_last());
        assert((a + b).drop_last() =~= a + b.drop_last());
    }
}

/// Mixing interleaved channels frame by frame neither loses nor repeats a
/// sample: the frame sums add up to the sum of all samples.
pub proof fn law_channel_sums_cover_samples(samples: Seq<i16>, ch: nat, sums: Seq<i32>)
    requires
        ch > 0,
        sums.len() == frame_count(samples.len(), ch),
        forall|k: int| 0 <= k < sums.len() ==> #[trigger] sums[k] == sample_sum(frame_at(samples, ch, k)),
    ensures
        sums_total(sums) == sample_sum(samples),
    decreases sums.len(),
{
    let n = samples.len() as int;
    let c = sums.len() as int;
    let chi = ch as int;
    assert(c * chi >= n && (c - 1) * chi < n || c == 0) by (nonlinear_arith)
        requires
            c == (n + chi - 1) / chi,
            chi > 0,
            n >= 0,
    ;
    if c == 0 {
        assert(n <= 0) by (nonlinear_arith)
            requires
                c == (n + chi - 1) / chi,
                c == 0,
                chi > 0,
                n >= 0,
        ;
        assert(samples =~= Seq::<i16>::empty());
    } else {
        let start = (c - 1) * chi;
        assert(0 <= start < n) by (nonlinear_arith)
            requires
                start == (c - 1) * chi,
                c >= 1,
                chi > 0,
                (c - 1) * chi < n,
        ;
        let prefix = samples.subrange(0, start);
        let rest = sums.drop_last();
        assert(start == (c - 1) * chi);
        assert((c - 1) == (start + chi - 1) / chi) by (nonlinear_arith)
            requires
                start == (c - 1) * chi,
                c >= 1,
                chi > 0,
        ;
        assert forall|k: int| 0 <= k < rest.len() implies #[trigger] rest[k] == sample_sum(frame_at(prefix, ch, k)) by {
            assert(rest[k] == sums[k]);
            assert((k + 1) * chi <= start && 0 <= k * chi) by (nonlinear_arith)
                requires
                    0 <= k < c - 1,
                    start == (c - 1) * chi,
                    chi > 0,
            ;
            let lo = k * chi;
            let hi = (k + 1) * chi;
            assert(hi == lo + chi) by (nonlinear_arith)
                requires
                    lo == k * chi,
                    hi == (k + 1) * chi,
            ;
            assert(prefix.len() == start);
            assert(frame_at(prefix, ch, k) == prefix.subrange(lo, hi));
            assert(frame_at(samples, ch, k) == samples.subrange(lo, hi));
            assert(prefix.subrange(lo, hi) =~= samples.subrange(lo, hi));
        }
        law_channel_sums_cover_samples(prefix, ch, rest);
        assert(c * chi == start + chi) by (nonlinear_arith)
            requires
                start == (c - 1) * chi,
        ;
        assert(frame_at(samples, ch, c - 1) =~= samples.subrange(start, n));
        assert(sums[c - 1] == sample_sum(frame_at(samples, ch, c - 1)));
        lemma_sample_sum_concat(prefix, samples.subrange(start, n));
        assert(prefix + samples.subrange(start, n) =~= samples);
    }
}

// =============================================================================
// Opus
// =============================================================================

/// The sample rates, in Hz, at which the Opus decoder works.
pub open spec fn opus_rate_supported(rate: u32) -> bool {
    rate == 8000 || rate == 12000 || rate == 16000 || rate == 24000 || rate == 48000
}

/// Why the Opus decoder refuses a format: the channel count is checked first,
/// then the sample rate.
pub open spec fn opus_format_issue(sample_rate: u32, channels: usize) -> Option<Seq<char>> {
    if channels != 1 && channels != 2 {
        Some("未対応のチャネル数: "@ + decimal(channels as nat))
    } else if !opus_rate_supported(sample_rate) {
        Some("未対応のサンプルレート: "@ + decimal(sample_rate as nat))
    } else {
        None
    }
}

/// Whether the Opus decoder can be made for mono or stereo audio at one of
/// its sample rates; the reason when it cannot.
pub fn check_opus_format(sample_rate: u32, channels: usize) -> (r: Result<(), String>)
    ensures
        r is Ok <==> opus_format_issue(sample_rate, channels) is None,
        r matches Err(m) ==> opus_format_issue(sample_rate, channels) == Some(m@),
{
    if channels != 1 && channels != 2 {
        let mut m = owned("未対応のチャネル数: ");
        push_decimal(&mut m, channels as u64);
        return Err(m);
    }
    if !(sample_rate == 8000 || sample_rate == 12000 || sample_rate == 16000 || sample_rate == 24000
        || sample_rate == 48000) {
        let mut m = owned("未対応のサンプルレート: ");
        push_decimal(&mut m, sample_rate as u64);
        return Err(m);
    }
    Ok(())
}

/// The Opus decoder is made for exactly the mono and stereo formats at the
/// rates Opus decodes at: 8, 12, 16, 24 and 48 kHz.
pub proof fn law_opus_formats(sample_rate: u32, channels: usize)
    ensures
        opus_format_issue(sample_rate, channels) is None <==> ((channels == 1 || channels == 2) && (
        sample_rate == 8000 || sample_rate == 12000 || sample_rate == 16000 || sample_rate == 24000
            || sample_rate == 48000)),
{
}

/// The room one decoded packet needs: 20 ms of samples for every channel.
pub fn decode_buffer_len(sample_rate: u32, channels: usize) -> (n: usize)
    requires
        (sample_rate / 50) as int * channels <= usize::MAX,
    ensures
        n == (sample_rate / 50) as int * channels,
{
    (sample_rate / 50) as usize * channels
}

/// The length of the silent frame that warms the pipeline up: one frame's
/// duration of samples at the input rate, for every channel.
pub fn warmup_frame_len(sample_rate_hz: u32, frame_duration_ms: u32, channels: u8) -> (n: usize)
    requires
        sample_rate_hz as int * frame_duration_ms as int <= usize::MAX,
        (sample_rate_hz as int * frame_duration_ms as int) / 1000 * channels as int <= usize::MAX,
    ensures
        n == (sample_rate_hz as int * frame_duration_ms as int) / 1000 * channels as int,
{
    let product = sample_rate_hz as usize * frame_duration_ms as usize;
    let per_channel = product / 1000;
    per_channel * channels as usize
}

} // verus!
