//! Frame geometry: derived frame sizes, the two edge-boundary policies, and
//! windowed-frame extraction over opaque sample words.

use vstd::prelude::*;

verus! {

/// Shape of the tapering window applied to each frame.
///
/// The coefficient tables themselves are real-valued and are produced outside
/// the verified core; the kind only selects which table is built.
#[derive(Clone, Copy, PartialEq, Eq, Structural, Debug)]
pub enum WindowKind {
    Hanning,
    Sine,
    Hamming,
    Hann,
    Povey,
    Rectangular,
    Blackman,
}

/// Frame extraction configuration: sample rate, frame timing, preprocessing
/// switches and the edge-boundary policy.
///
/// The sample rate is integral hertz and frame length/shift are integral
/// milliseconds, so every derived size is an exact integer function of the
/// configuration. Real-valued knobs (dither amplitude, pre-emphasis and
/// Blackman coefficients) belong to the unverified numeric layer and are kept
/// beside it.
#[derive(Clone, Copy, PartialEq, Eq, Structural, Debug)]
pub struct FrameOptions {
    /// Sampling rate in Hz.
    pub samp_freq: u32,
    /// Frame shift in milliseconds.
    pub frame_shift_ms: u32,
    /// Frame length in milliseconds.
    pub frame_length_ms: u32,
    /// Subtract the frame mean before windowing.
    pub remove_dc_offset: bool,
    /// Which window coefficient table to apply.
    pub window_type: WindowKind,
    /// Round the transform length up to the next power of two.
    pub round_to_power_of_two: bool,
    /// `true`: frames must lie entirely inside the waveform (snip regime);
    /// `false`: frames are centered on shift multiples and edges reflect.
    pub snip_edges: bool,
}

/// Smallest power of two that is at least `n`, reached by doubling from `p`.
pub open spec fn next_pow2_from(p: int, n: int) -> int
    decreases (if p < n { n - p } else { 0 }) when 1 <= p
{
    if p >= n {
        p
    } else {
        next_pow2_from(2 * p, n)
    }
}

impl FrameOptions {
    /// Samples the window start advances between consecutive frames.
    pub open spec fn window_shift_spec(self) -> int {
        self.samp_freq * self.frame_shift_ms / 1000
    }

    /// Samples in one frame before transform padding.
    pub open spec fn window_size_spec(self) -> int {
        self.samp_freq * self.frame_length_ms / 1000
    }

    /// Length of the buffer handed to the spectral transform.
    pub open spec fn padded_window_size_spec(self) -> int {
        if self.round_to_power_of_two {
            next_pow2_from(1, self.window_size_spec())
        } else {
            self.window_size_spec()
        }
    }

    /// Configurations the frame pipeline accepts: at least one sample of
    /// shift and of length, and sizes small enough that all derived index
    /// arithmetic fits the machine's pointer-sized integers.
    pub open spec fn valid(self) -> bool {
        &&& 1 <= self.window_shift_spec()
        &&& 1 <= self.window_size_spec()
        &&& self.window_shift_spec() <= 0x1000_0000
        &&& self.window_size_spec() <= 0x1000_0000
    }

    pub fn window_shift(&self) -> (r: usize)
        requires
            self.valid(),
        ensures
            r == self.window_shift_spec(),
    {
        ((self.samp_freq as u64) * (self.frame_shift_ms as u64) / 1000) as usize
    }

    pub fn window_size(&self) -> (r: usize)
        requires
            self.valid(),
        ensures
            r == self.window_size_spec(),
    {
        ((self.samp_freq as u64) * (self.frame_length_ms as u64) / 1000) as usize
    }

    pub fn padded_window_size(&self) -> (r: usize)
        requires
            self.valid(),
        ensures
            r == self.padded_window_size_spec(),
            r >= self.window_size_spec(),
    {
        let size = self.window_size();
        if self.round_to_power_of_two {
            next_power_of_two(size)
        } else {
            size
        }
    }

    /// The default configuration: 16 kHz audio framed as 25 ms windows every
    /// 10 ms, DC removal on, Povey window, transform length rounded to a
    /// power of two, snip edges.
    pub open spec fn default_spec() -> FrameOptions {
        FrameOptions {
            samp_freq: 16000,
            frame_shift_ms: 10,
            frame_length_ms: 25,
            remove_dc_offset: true,
            window_type: WindowKind::Povey,
            round_to_power_of_two: true,
            snip_edges: true,
        }
    }
}

impl Default for FrameOptions {
    /// 16 kHz audio framed as 25 ms windows every 10 ms, DC removal on,
    /// Povey window, transform length rounded to a power of two, snip edges.
    fn default() -> (r: Self)
        ensures
            r == FrameOptions::default_spec(),
            r.valid(),
    {
        FrameOptions {
            samp_freq: 16000,
            frame_shift_ms: 10,
            frame_length_ms: 25,
            remove_dc_offset: true,
            window_type: WindowKind::Povey,
            round_to_power_of_two: true,
            snip_edges: true,
        }
    }
}

/// Index of the first sample of `frame`. In the snip regime frames tile from
/// sample zero; in the centered regime frame `frame` is centered on
/// `frame * shift + shift / 2` and may start before sample zero.
pub open spec fn first_sample_spec(frame: int, opts: FrameOptions) -> int {
    if opts.snip_edges {
        frame * opts.window_shift_spec()
    } else {
        frame * opts.window_shift_spec() + opts.window_shift_spec() / 2
            - opts.window_size_spec() / 2
    }
}

/// Snip regime: frames that lie entirely inside `n` samples.
pub open spec fn snip_frames_spec(n: int, opts: FrameOptions) -> int {
    if n < opts.window_size_spec() {
        0
    } else {
        1 + (n - opts.window_size_spec()) / opts.window_shift_spec()
    }
}

/// Centered regime before trimming: `n / shift`, rounded to nearest.
pub open spec fn centered_base_spec(n: int, opts: FrameOptions) -> int {
    (n + opts.window_shift_spec() / 2) / opts.window_shift_spec()
}

/// Drop trailing centered frames whose last sample lies beyond sample `n`.
pub open spec fn centered_trim_spec(m: int, n: int, opts: FrameOptions) -> int
    decreases m when 0 <= m
{
    if m <= 0 {
        0
    } else if first_sample_spec(m - 1, opts) + opts.window_size_spec() > n {
        centered_trim_spec(m - 1, n, opts)
    } else {
        m
    }
}

/// Frames fully determined by `n` samples. `flush` marks end of input, where
/// the centered regime keeps trailing frames that extend past the waveform
/// (their missing samples are mirror-reflected).
pub open spec fn num_frames_spec(n: int, opts: FrameOptions, flush: bool) -> int {
    if opts.snip_edges {
        snip_frames_spec(n, opts)
    } else if flush {
        centered_base_spec(n, opts)
    } else {
        centered_trim_spec(centered_base_spec(n, opts), n, opts)
    }
}

/// Index of the first sample of `frame`, under the active boundary policy.
pub fn first_sample_of_frame(frame: usize, opts: &FrameOptions) -> (r: isize)
    requires
        opts.valid(),
        (frame + 1) * opts.window_shift_spec() <= isize::MAX,
    ensures
        r == first_sample_spec(frame as int, *opts),
{
    proof {
        let s = opts.window_shift_spec();
        assert(frame + 1 <= (frame + 1) * s) by (nonlinear_arith)
            requires s >= 1, frame >= 0;
        assert((frame + 1) * s == frame * s + s) by (nonlinear_arith);
        assert(frame * s >= 0) by (nonlinear_arith)
            requires s >= 0, frame >= 0;
    }
    let frame_shift = opts.window_shift() as isize;
    let fi = frame as isize;
    if opts.snip_edges {
        fi * frame_shift
    } else {
        let midpoint = fi * frame_shift + frame_shift / 2;
        midpoint - (opts.window_size() as isize) / 2
    }
}

/// How many frames are fully determined by `num_samples` samples.
///
/// Snip regime: `0` below one frame length, else
/// `1 + (num_samples - frame_length) / frame_shift`. Centered regime:
/// `num_samples / shift` rounded to nearest and then, unless `flush`,
/// decremented while the last frame's final sample would lie beyond the
/// waveform.
pub fn num_frames(num_samples: usize, opts: &FrameOptions, flush: bool) -> (r: usize)
    requires
        opts.valid(),
        num_samples + opts.window_shift_spec() + opts.window_size_spec() <= isize::MAX,
    ensures
        r == num_frames_spec(num_samples as int, *opts, flush),
{
    let frame_shift = opts.window_shift();
    let frame_length = opts.window_size();

    if opts.snip_edges {
        if num_samples < frame_length {
            return 0;
        }
        let q = (num_samples - frame_length) / frame_shift;
        proof {
            assert((num_samples - frame_length) / frame_shift as int
                <= num_samples - frame_length) by (nonlinear_arith)
                requires frame_shift >= 1, num_samples >= frame_length;
        }
        return 1 + q;
    }

    let mut m: usize = (num_samples + frame_shift / 2) / frame_shift;
    let ghost base = m as int;
    proof {
        let s = opts.window_shift_spec();
        let t = num_samples + s / 2;
        vstd::arithmetic::div_mod::lemma_fundamental_div_mod(t, s);
        vstd::arithmetic::div_mod::lemma_mod_bound(t, s);
        vstd::arithmetic::mul::lemma_mul_is_commutative(base, s);
        assert(base * s <= t);
    }

    if flush {
        return m;
    }

    while m > 0
        invariant_except_break
            opts.valid(),
            num_samples + opts.window_shift_spec() + opts.window_size_spec() <= isize::MAX,
            0 <= m <= base,
            base == centered_base_spec(num_samples as int, *opts),
            frame_length == opts.window_size_spec(),
            m * opts.window_shift_spec() <= num_samples + opts.window_shift_spec() / 2,
            centered_trim_spec(m as int, num_samples as int, *opts)
                == centered_trim_spec(base, num_samples as int, *opts),
        ensures
            m == centered_trim_spec(base, num_samples as int, *opts),
            base == centered_base_spec(num_samples as int, *opts),
        decreases m,
    {
        proof {
            assert((m - 1) * opts.window_shift_spec()
                == m * opts.window_shift_spec() - opts.window_shift_spec())
                by (nonlinear_arith);
        }
        let first_sample = first_sample_of_frame(m - 1, opts);
        let end_sample = first_sample + frame_length as isize;
        if end_sample > num_samples as isize {
            m -= 1;
        } else {
            break;
        }
    }
    m
}

/// Mirror-reflect `idx` into `[0, len)`: a negative index maps to
/// `-idx - 1`, one at or past the end to `2*len - 1 - idx`, repeated until
/// the index is in range.
pub open spec fn reflect_spec(idx: int, len: int) -> int
    decreases (if idx < 0 { -idx } else { idx }) when 1 <= len
{
    if 0 <= idx < len {
        idx
    } else if idx < 0 {
        reflect_spec(-idx - 1, len)
    } else {
        reflect_spec(2 * len - 1 - idx, len)
    }
}

/// Whether `frame` can be extracted from the samples
/// `[sample_offset, num_samples)` still held in the buffer. Snip regime: the
/// frame must lie entirely inside the available samples. Centered regime:
/// reflection supplies missing edge samples, so the frame is extractable as
/// long as no sample before `sample_offset` is needed as the frame start.
pub open spec fn frame_ready_spec(
    sample_offset: int,
    num_samples: int,
    frame: int,
    opts: FrameOptions,
) -> bool {
    let start = first_sample_spec(frame, opts);
    let end = start + opts.window_size_spec();
    if opts.snip_edges {
        start >= sample_offset && end <= num_samples
    } else {
        sample_offset == 0 || start >= sample_offset
    }
}

/// Content of the extracted frame: one sample word per in-frame position,
/// mirror-reflected at the edges of the buffer, zero-padded up to the
/// transform length. Positions are relative to `sample_offset`, the global
/// index of the buffer's first element.
pub open spec fn extracted_frame_spec(
    sample_offset: int,
    wave: Seq<u32>,
    frame: int,
    opts: FrameOptions,
) -> Seq<u32> {
    Seq::new(
        opts.padded_window_size_spec() as nat,
        |s: int|
            if s < opts.window_size_spec() {
                wave[reflect_spec(
                    first_sample_spec(frame, opts) - sample_offset + s,
                    wave.len() as int,
                )]
            } else {
                0u32
            },
    )
}

/// The frame an offline (whole-waveform) computation extracts.
pub open spec fn offline_frame_spec(wave: Seq<u32>, frame: int, opts: FrameOptions) -> Seq<u32> {
    extracted_frame_spec(0, wave, frame, opts)
}

/// Mirror-reflect `idx` into `[0, len)`.
fn reflect_index(idx: isize, len: usize) -> (r: usize)
    requires
        1 <= len,
        len <= isize::MAX,
        -isize::MAX <= idx,
    ensures
        r == reflect_spec(idx as int, len as int),
        r < len,
{
    let mut i = idx;
    while i < 0 || i >= len as isize
        invariant
            1 <= len <= isize::MAX,
            -isize::MAX <= i,
            reflect_spec(i as int, len as int) == reflect_spec(idx as int, len as int),
        decreases (if i < 0 { -(i as int) } else { i as int }),
    {
        if i < 0 {
            i = -i - 1;
        } else {
            // len - 1 - (i - len) equals 2*len - 1 - i without overflowing.
            i = (len as isize) - 1 - (i - len as isize);
        }
    }
    i as usize
}

/// Extract the samples of frame `frame_index` from the buffer `wave`, whose
/// first element has global index `sample_offset`, into `window_out`:
/// mirror-reflected at the buffer edges where the centered regime reaches
/// outside, zero-padded up to the transform length. Fails exactly when the
/// frame is not extractable from the available samples.
///
/// Samples are opaque 32-bit words; dithering, DC removal, pre-emphasis,
/// energy and the window multiplication are real-valued postprocessing steps
/// applied outside the verified core.
pub fn extract_window(
    sample_offset: usize,
    wave: &Vec<u32>,
    frame_index: usize,
    opts: &FrameOptions,
    window_out: &mut Vec<u32>,
) -> (r: Result<(), ()>)
    requires
        opts.valid(),
        opts.snip_edges || wave.len() >= 1,
        sample_offset + wave.len() + opts.window_shift_spec() + opts.window_size_spec()
            <= isize::MAX,
        (frame_index + 1) * opts.window_shift_spec() + opts.window_size_spec() <= isize::MAX,
    ensures
        r.is_ok() == frame_ready_spec(
            sample_offset as int,
            sample_offset + wave.len(),
            frame_index as int,
            *opts,
        ),
        r.is_ok() ==> final(window_out)@ == extracted_frame_spec(
            sample_offset as int,
            wave@,
            frame_index as int,
            *opts,
        ),
        r.is_err() ==> final(window_out)@ == old(window_out)@,
{
    let frame_length = opts.window_size();
    let padded = opts.padded_window_size();
    proof {
        let s = opts.window_shift_spec();
        assert((frame_index + 1) * s == frame_index * s + s) by (nonlinear_arith);
        assert(frame_index * s >= 0) by (nonlinear_arith)
            requires s >= 0, frame_index >= 0;
    }
    let start_sample = first_sample_of_frame(frame_index, opts);
    let end_sample = start_sample + frame_length as isize;
    let num_samples = sample_offset + wave.len();

    if opts.snip_edges {
        if start_sample < sample_offset as isize || end_sample > num_samples as isize {
            return Err(());
        }
    } else {
        if !(sample_offset == 0 || start_sample >= sample_offset as isize) {
            return Err(());
        }
    }
    proof {
        // In the snip regime an extractable frame forces a non-empty buffer.
        if opts.snip_edges {
            assert(wave.len() >= 1);
        }
    }

    let wave_start = start_sample - sample_offset as isize;
    window_out.clear();
    let mut s: usize = 0;
    while s < frame_length
        invariant
            opts.valid(),
            1 <= wave.len() <= isize::MAX,
            frame_length == opts.window_size_spec(),
            wave_start == first_sample_spec(frame_index as int, *opts) - sample_offset,
            -isize::MAX <= wave_start,
            wave_start + frame_length <= isize::MAX,
            s <= frame_length,
            window_out@.len() == s,
            forall|j: int| 0 <= j < s ==> window_out@[j] == wave@[reflect_spec(
                wave_start + j,
                wave@.len() as int,
            )],
        decreases frame_length - s,
    {
        let idx = reflect_index(wave_start + s as isize, wave.len());
        let w = wave[idx];
        window_out.push(w);
        s += 1;
    }
    while s < padded
        invariant
            s <= padded,
            window_out@.len() == s,
            frame_length <= s,
            frame_length <= padded,
            1 <= wave.len(),
            forall|j: int| frame_length <= j < s ==> window_out@[j] == 0u32,
            forall|j: int| 0 <= j < frame_length ==> window_out@[j] == wave@[reflect_spec(
                wave_start + j,
                wave@.len() as int,
            )],
        decreases padded - s,
    {
        window_out.push(0u32);
        s += 1;
    }
    proof {
        assert(window_out@ =~= extracted_frame_spec(
            sample_offset as int,
            wave@,
            frame_index as int,
            *opts,
        ));
    }
    Ok(())
}

/// Frame starts never decrease with the frame index.
pub proof fn lemma_first_sample_monotone(f1: int, f2: int, opts: FrameOptions)
    requires
        opts.valid(),
        f1 <= f2,
    ensures
        first_sample_spec(f1, opts) <= first_sample_spec(f2, opts),
{
    let s = opts.window_shift_spec();
    assert(f1 * s <= f2 * s) by (nonlinear_arith)
        requires f1 <= f2, s >= 0;
}

/// The trimmed centered frame count never exceeds `m`, and when positive its
/// last frame ends inside the waveform.
pub proof fn lemma_centered_trim_le(m: int, n: int, opts: FrameOptions)
    requires
        0 <= m,
    ensures
        0 <= centered_trim_spec(m, n, opts) <= m,
        centered_trim_spec(m, n, opts) >= 1 ==> first_sample_spec(
            centered_trim_spec(m, n, opts) - 1,
            opts,
        ) + opts.window_size_spec() <= n,
    decreases m,
{
    if m > 0 && first_sample_spec(m - 1, opts) + opts.window_size_spec() > n {
        lemma_centered_trim_le(m - 1, n, opts);
    }
}

/// Any `k <= m` whose last frame ends inside the waveform bounds the trimmed
/// count from below.
pub proof fn lemma_centered_trim_lower(m: int, n: int, opts: FrameOptions, k: int)
    requires
        0 <= k <= m,
        k == 0 || first_sample_spec(k - 1, opts) + opts.window_size_spec() <= n,
    ensures
        centered_trim_spec(m, n, opts) >= k,
    decreases m,
{
    if m > 0 && first_sample_spec(m - 1, opts) + opts.window_size_spec() > n {
        lemma_centered_trim_lower(m - 1, n, opts, k);
    }
}

/// More samples never mean fewer determined frames.
pub proof fn lemma_num_frames_monotone(n1: int, n2: int, opts: FrameOptions, flush: bool)
    requires
        opts.valid(),
        0 <= n1 <= n2,
    ensures
        num_frames_spec(n1, opts, flush) <= num_frames_spec(n2, opts, flush),
{
    let s = opts.window_shift_spec();
    let size = opts.window_size_spec();
    if opts.snip_edges {
        if n1 >= size {
            vstd::arithmetic::div_mod::lemma_div_is_ordered(n1 - size, n2 - size, s);
        } else if n2 >= size {
            vstd::arithmetic::div_mod::lemma_div_pos_is_pos(n2 - size, s);
        }
    } else {
        vstd::arithmetic::div_mod::lemma_div_is_ordered(n1 + s / 2, n2 + s / 2, s);
        if !flush {
            let t1 = centered_trim_spec(centered_base_spec(n1, opts), n1, opts);
            lemma_centered_trim_le(centered_base_spec(n1, opts), n1, opts);
            lemma_centered_trim_lower(centered_base_spec(n2, opts), n2, opts, t1);
        }
    }
}

/// Finalizing the stream never lowers the frame count.
pub proof fn lemma_num_frames_flush(n: int, opts: FrameOptions)
    requires
        opts.valid(),
        0 <= n,
    ensures
        num_frames_spec(n, opts, false) <= num_frames_spec(n, opts, true),
{
    if !opts.snip_edges {
        lemma_centered_trim_le(centered_base_spec(n, opts), n, opts);
        vstd::arithmetic::div_mod::lemma_div_pos_is_pos(n + opts.window_shift_spec() / 2,
            opts.window_shift_spec());
    }
}

/// Bounds on a determined frame: in the snip regime it lies entirely inside
/// the waveform; in the centered regime the sum of its first and one-past-last
/// sample indices stays within `2n + 1`, which is what keeps every
/// mirror-reflected access inside the retained buffer.
pub proof fn lemma_frame_bounds(n: int, frame: int, opts: FrameOptions, flush: bool)
    requires
        opts.valid(),
        0 <= n,
        0 <= frame < num_frames_spec(n, opts, flush),
    ensures
        opts.snip_edges ==> 0 <= first_sample_spec(frame, opts)
            && first_sample_spec(frame, opts) + opts.window_size_spec() <= n,
        !flush ==> first_sample_spec(frame, opts) + opts.window_size_spec() <= n,
        2 * first_sample_spec(frame, opts) + opts.window_size_spec() <= 2 * n + 1,
{
    let s = opts.window_shift_spec();
    let size = opts.window_size_spec();
    if opts.snip_edges {
        let q = (n - size) / s;
        vstd::arithmetic::div_mod::lemma_fundamental_div_mod(n - size, s);
        vstd::arithmetic::div_mod::lemma_mod_bound(n - size, s);
        assert(frame * s <= q * s) by (nonlinear_arith)
            requires frame <= q, s >= 0;
        vstd::arithmetic::mul::lemma_mul_is_commutative(q, s);
        assert(frame * s >= 0) by (nonlinear_arith)
            requires frame >= 0, s >= 0;
        assert(frame * s + size <= n);
        assert(2 * (frame * s) + size <= 2 * n + 1);
    } else {
        let base = centered_base_spec(n, opts);
        if !flush {
            lemma_centered_trim_le(base, n, opts);
            lemma_first_sample_monotone(frame, num_frames_spec(n, opts, false) - 1, opts);
            // end(frame) <= end(trim - 1) <= n, and start < end, so the sum
            // stays under 2n.
        } else {
            vstd::arithmetic::div_mod::lemma_fundamental_div_mod(n + s / 2, s);
            vstd::arithmetic::div_mod::lemma_mod_bound(n + s / 2, s);
            vstd::arithmetic::mul::lemma_mul_is_commutative(base, s);
            assert(base * s <= n + s / 2);
            assert((frame + 1) * s <= base * s) by (nonlinear_arith)
                requires frame + 1 <= base, s >= 0;
            assert((frame + 1) * s == frame * s + s) by (nonlinear_arith);
            assert(2 * (frame * s) + 2 * (s / 2) <= 2 * n) by {
                assert(frame * s <= n + s / 2 - s);
                assert(4 * (s / 2) <= 2 * s);
            }
            assert(size - 2 * (size / 2) <= 1);
        }
    }
}

/// Reflection indices computed against a buffer whose first element has
/// global index `offset` agree with reflection against the full waveform, as
/// long as the access stays at or above `offset` after reflection.
pub proof fn lemma_reflect_shift(g: int, offset: int, total: int)
    requires
        0 < offset,
        offset <= g,
        g + offset <= 2 * total - 1,
        offset < total,
    ensures
        offset + reflect_spec(g - offset, total - offset) == reflect_spec(g, total),
{
    let len = total - offset;
    if g < total {
        assert(reflect_spec(g - offset, len) == g - offset);
        assert(reflect_spec(g, total) == g);
    } else {
        let b = g - offset;
        let b2 = 2 * len - 1 - b;
        assert(0 <= b2 < len);
        assert(reflect_spec(b, len) == reflect_spec(b2, len));
        assert(reflect_spec(b2, len) == b2);
        let g2 = 2 * total - 1 - g;
        assert(0 <= g2 < total);
        assert(reflect_spec(g, total) == reflect_spec(g2, total));
        assert(reflect_spec(g2, total) == g2);
        assert(offset + b2 == g2);
    }
}

/// A frame extracted from the retained buffer equals the frame an offline
/// computation extracts from the full waveform. `offset` is the global index
/// of the buffer's first sample; the buffer holds everything from there on.
pub proof fn lemma_streaming_frame_matches_offline(
    offset: int,
    history: Seq<u32>,
    frame: int,
    opts: FrameOptions,
)
    requires
        opts.valid(),
        0 <= offset <= history.len(),
        offset == 0 || (offset <= first_sample_spec(frame, opts)
            && first_sample_spec(frame, opts) + opts.window_size_spec() + offset
                <= 2 * history.len()),
    ensures
        extracted_frame_spec(offset, history.skip(offset), frame, opts) == offline_frame_spec(
            history,
            frame,
            opts,
        ),
{
    let total = history.len() as int;
    let buf = history.skip(offset);
    if offset == 0 {
        assert(buf =~= history);
        assert(extracted_frame_spec(0, buf, frame, opts) =~= offline_frame_spec(
            history,
            frame,
            opts,
        ));
    } else {
        let start = first_sample_spec(frame, opts);
        let size = opts.window_size_spec();
        assert(2 * total >= start + size + offset >= 2 * offset + 1);
        assert(offset < total);
        let ext = extracted_frame_spec(offset, buf, frame, opts);
        let off = offline_frame_spec(history, frame, opts);
        assert forall|s: int| 0 <= s < ext.len() implies #[trigger] ext[s] == off[s] by {
            if s < size {
                let g = start + s;
                lemma_reflect_shift(g, offset, total);
                lemma_reflect_in_range(g - offset, total - offset);
                let r = reflect_spec(g - offset, total - offset);
                assert(buf[r] == history[r + offset]);
            }
        }
        assert(ext =~= off);
    }
}

/// A frame that is determined before end of input never changes as more
/// samples arrive: its offline extraction reads only samples that are
/// already present, after at most one reflection at the waveform head. With
/// the streaming contracts this closes the online/offline equivalence: a
/// frame emitted mid-stream equals the offline extraction over every later,
/// longer waveform as well.
pub proof fn lemma_determined_frame_stable(
    h1: Seq<u32>,
    h2: Seq<u32>,
    frame: int,
    opts: FrameOptions,
)
    requires
        opts.valid(),
        h1.len() <= h2.len(),
        h2.take(h1.len() as int) == h1,
        0 <= frame < num_frames_spec(h1.len() as int, opts, false),
    ensures
        offline_frame_spec(h1, frame, opts) == offline_frame_spec(h2, frame, opts),
{
    let n1 = h1.len() as int;
    let n2 = h2.len() as int;
    let start = first_sample_spec(frame, opts);
    let size = opts.window_size_spec();
    let s = opts.window_shift_spec();
    lemma_frame_bounds(n1, frame, opts, false);
    assert(frame * s >= 0) by (nonlinear_arith)
        requires frame >= 0, s >= 0;
    vstd::arithmetic::div_mod::lemma_fundamental_div_mod(size, 2);
    vstd::arithmetic::div_mod::lemma_mod_bound(size, 2);
    let a = offline_frame_spec(h1, frame, opts);
    let b = offline_frame_spec(h2, frame, opts);
    assert forall|i: int| 0 <= i < a.len() implies #[trigger] a[i] == b[i] by {
        if i < size {
            let g = start + i;
            assert(g < n1);
            if g >= 0 {
                assert(reflect_spec(g, n1) == g);
                assert(reflect_spec(g, n2) == g);
                assert(h2.take(n1)[g] == h1[g]);
            } else {
                let g2 = -g - 1;
                assert(start >= -(size / 2));
                assert(0 <= g2 < size / 2);
                assert(n1 >= start + size >= size - size / 2);
                assert(g2 < n1);
                assert(reflect_spec(g, n1) == reflect_spec(g2, n1));
                assert(reflect_spec(g2, n1) == g2);
                assert(reflect_spec(g, n2) == reflect_spec(g2, n2));
                assert(reflect_spec(g2, n2) == g2);
                assert(h2.take(n1)[g2] == h1[g2]);
            }
        }
    }
    assert(a =~= b);
}

/// Reflection lands inside `[0, len)`.
pub proof fn lemma_reflect_in_range(idx: int, len: int)
    requires
        1 <= len,
    ensures
        0 <= reflect_spec(idx, len) < len,
    decreases (if idx < 0 { -idx } else { idx }),
{
    if 0 <= idx < len {
    } else if idx < 0 {
        lemma_reflect_in_range(-idx - 1, len);
    } else {
        lemma_reflect_in_range(2 * len - 1 - idx, len);
    }
}

/// The padding target is exactly the next power of two: a power of two, at
/// least `n`, and less than `2n` (below which no smaller power of two can
/// reach `n`).
pub proof fn lemma_next_pow2_bounds(p: int, n: int)
    requires
        1 <= p,
        p < 2 * n,
        vstd::arithmetic::power2::is_pow2(p),
    ensures
        n <= next_pow2_from(p, n) < 2 * n,
        vstd::arithmetic::power2::is_pow2(next_pow2_from(p, n)),
    decreases (if p < n { n - p } else { 0 }),
{
    if p < n {
        assert(vstd::arithmetic::power2::is_pow2(2 * p)) by {
            reveal(vstd::arithmetic::power2::is_pow2);
        }
        lemma_next_pow2_bounds(2 * p, n);
    }
}

/// Smallest power of two that is at least `n`.
fn next_power_of_two(n: usize) -> (r: usize)
    requires
        1 <= n <= 0x1000_0000,
    ensures
        r == next_pow2_from(1, n as int),
        r >= n,
{
    let mut p: usize = 1;
    while p < n
        invariant
            1 <= p,
            p <= 0x2000_0000,
            n <= 0x1000_0000,
            next_pow2_from(p as int, n as int) == next_pow2_from(1, n as int),
        decreases (if p < n { n as int - p } else { 0int }),
    {
        p = p * 2;
    }
    p
}

} // verus!
