//! The streaming accumulator: buffers accepted samples, detects newly
//! determined frames, extracts them, and discards consumed samples.
//!
//! Its contract is the online/offline equivalence: every frame it emits is
//! exactly the frame an offline computation over the whole waveform accepted
//! so far would extract, no matter how the waveform was chunked. The numeric
//! layer turns each emitted frame into a feature vector; since it applies
//! the same function to identical frames, feature vectors agree as well.

use crate::fbank::{fbank_dim_spec, FbankComputer};
use crate::mfcc::MfccComputer;
use crate::window::{
    extract_window, first_sample_of_frame, first_sample_spec, frame_ready_spec,
    lemma_first_sample_monotone, lemma_frame_bounds, lemma_num_frames_flush,
    lemma_num_frames_monotone, lemma_streaming_frame_matches_offline, num_frames,
    num_frames_spec, offline_frame_spec, FrameOptions,
};
use vstd::prelude::*;

verus! {

/// The feature variants the accumulator can drive. Each holds the verified
/// shape of its pipeline; the numeric work happens outside the verified
/// core on the frames the accumulator emits.
pub enum FeatureComputer {
    Fbank(FbankComputer),
    Mfcc(MfccComputer),
}

impl FeatureComputer {
    /// The frame geometry this variant was configured with.
    pub open spec fn frame_opts_spec(&self) -> FrameOptions {
        match self {
            FeatureComputer::Fbank(c) => c.opts.frame_opts,
            FeatureComputer::Mfcc(c) => c.opts.frame_opts,
        }
    }

    /// Number of values in one output frame of this variant.
    pub open spec fn dim_spec(&self) -> int {
        match self {
            FeatureComputer::Fbank(c) => fbank_dim_spec(c.opts),
            FeatureComputer::Mfcc(c) => c.opts.num_ceps as int,
        }
    }

    pub fn frame_opts(&self) -> (r: &FrameOptions)
        ensures
            *r == self.frame_opts_spec(),
    {
        match self {
            FeatureComputer::Fbank(c) => &c.opts.frame_opts,
            FeatureComputer::Mfcc(c) => &c.opts.frame_opts,
        }
    }

    pub fn dim(&self) -> (r: usize)
        requires
            self.dim_spec() <= usize::MAX,
        ensures
            r == self.dim_spec(),
    {
        match self {
            FeatureComputer::Fbank(c) => c.dim(),
            FeatureComputer::Mfcc(c) => c.dim(),
        }
    }

    /// Whether the extractor's pre-window log-energy is consumed.
    pub fn need_raw_energy(&self) -> (r: bool)
        ensures
            r == match self {
                FeatureComputer::Fbank(c) => c.opts.use_energy && c.opts.raw_energy,
                FeatureComputer::Mfcc(c) => c.opts.use_energy && c.opts.raw_energy,
            },
    {
        match self {
            FeatureComputer::Fbank(c) => c.opts.use_energy && c.opts.raw_energy,
            FeatureComputer::Mfcc(c) => c.opts.use_energy && c.opts.raw_energy,
        }
    }
}

/// Streaming frame accumulator.
///
/// Owns a buffer of the not-yet-fully-consumed samples, the global index of
/// the buffer's first sample, and the count of frames already emitted. The
/// full waveform accepted so far exists only as a ghost history; the buffer
/// always holds exactly its tail from the discard cursor on.
///
/// Not safe for concurrent use from several threads without external
/// synchronization.
pub struct OnlineFeature {
    computer: FeatureComputer,
    waveform: Vec<u32>,
    waveform_offset: usize,
    input_finished: bool,
    frames_done: usize,
    history: Ghost<Seq<u32>>,
}

impl OnlineFeature {
    /// Every sample ever accepted, in order.
    pub closed spec fn history(self) -> Seq<u32> {
        self.history@
    }

    /// The frame geometry in use.
    pub closed spec fn opts_spec(self) -> FrameOptions {
        self.computer.frame_opts_spec()
    }

    /// Whether end of input was signalled.
    pub closed spec fn finished(self) -> bool {
        self.input_finished
    }

    /// How many frames have been emitted so far.
    pub closed spec fn frames_output(self) -> int {
        self.frames_done as int
    }

    /// Global index of the first still-buffered sample. It only ever
    /// advances, and only past samples that no present or future frame can
    /// reference.
    pub closed spec fn discard_offset(self) -> int {
        self.waveform_offset as int
    }

    /// Geometry and buffering invariant: the buffer is exactly the history
    /// from the discard cursor on, and the cursor never passes the first
    /// sample the next frame needs — in the centered regime it additionally
    /// stays one sample behind, because a trailing flush frame can
    /// mirror-reflect one sample below its own start.
    pub closed spec fn wf_core(self) -> bool {
        let opts = self.computer.frame_opts_spec();
        &&& opts.valid()
        &&& self.waveform_offset + self.waveform@.len() == self.history@.len()
        &&& self.waveform@ == self.history@.skip(self.waveform_offset as int)
        &&& (self.waveform_offset == 0 || self.waveform_offset + (if opts.snip_edges {
            0int
        } else {
            1int
        }) <= first_sample_spec(self.frames_done as int, opts))
    }

    /// Full invariant: additionally, the emitted frame count is exactly the
    /// number of frames the whole history determines.
    pub closed spec fn wf(self) -> bool {
        &&& self.wf_core()
        &&& self.frames_done == num_frames_spec(
            self.history@.len() as int,
            self.computer.frame_opts_spec(),
            self.input_finished,
        )
    }

    /// A fresh accumulator that has seen no samples.
    pub fn new(computer: FeatureComputer) -> (r: OnlineFeature)
        requires
            computer.frame_opts_spec().valid(),
        ensures
            r.wf(),
            r.history() == Seq::<u32>::empty(),
            r.opts_spec() == computer.frame_opts_spec(),
            !r.finished(),
            r.frames_output() == 0,
            r.discard_offset() == 0,
    {
        proof {
            let opts = computer.frame_opts_spec();
            let s = opts.window_shift_spec();
            vstd::arithmetic::div_mod::lemma_fundamental_div_mod(s, 2);
            assert(s / 2 < s);
            vstd::arithmetic::div_mod::lemma_basic_div(s / 2, s);
            assert(num_frames_spec(0, opts, false) == 0);
        }
        let r = OnlineFeature {
            computer,
            waveform: Vec::new(),
            waveform_offset: 0,
            input_finished: false,
            frames_done: 0,
            history: Ghost(Seq::empty()),
        };
        proof {
            assert(r.waveform@ =~= r.history@.skip(0));
        }
        r
    }

    /// The variant driven by this accumulator.
    pub fn computer(&self) -> (r: &FeatureComputer)
        ensures
            r.frame_opts_spec() == self.opts_spec(),
    {
        &self.computer
    }

    /// How many frames have been emitted so far.
    pub fn num_frames_ready(&self) -> (r: usize)
        ensures
            r == self.frames_output(),
    {
        self.frames_done
    }

    /// Append a chunk of samples and emit every newly determined frame.
    ///
    /// The emitted frames are exactly frames `old .. new` of the offline
    /// computation over everything accepted so far — the chunking of the
    /// input leaves no trace in the output.
    ///
    /// A sample rate other than the configured one is a caller bug, not a
    /// recoverable condition; the unverified shell checks the rate and
    /// aborts before calling.
    pub fn accept_waveform(&mut self, sampling_rate: u32, chunk: &Vec<u32>) -> (frames: Vec<
        Vec<u32>,
    >)
        requires
            old(self).wf(),
            sampling_rate == old(self).opts_spec().samp_freq,
            old(self).history().len() + chunk.len() + 2 * old(self).opts_spec().window_shift_spec()
                + 2 * old(self).opts_spec().window_size_spec() <= isize::MAX,
        ensures
            final(self).wf(),
            final(self).opts_spec() == old(self).opts_spec(),
            final(self).finished() == old(self).finished(),
            final(self).history() == old(self).history() + chunk@,
            old(self).frames_output() <= final(self).frames_output(),
            final(self).frames_output() == num_frames_spec(
                final(self).history().len() as int,
                final(self).opts_spec(),
                final(self).finished(),
            ),
            old(self).discard_offset() <= final(self).discard_offset(),
            frames@.len() == final(self).frames_output() - old(self).frames_output(),
            forall|i: int|
                0 <= i < frames@.len() ==> frames@[i]@ == offline_frame_spec(
                    final(self).history(),
                    old(self).frames_output() + i,
                    final(self).opts_spec(),
                ),
    {
        self.waveform.extend_from_slice(chunk.as_slice());
        let ghost old_history = self.history@;
        self.history = Ghost(self.history@ + chunk@);
        proof {
            assert(self.waveform@ =~= self.history@.skip(self.waveform_offset as int));
            lemma_num_frames_monotone(
                old_history.len() as int,
                self.history@.len() as int,
                self.computer.frame_opts_spec(),
                self.input_finished,
            );
        }
        self.compute_new()
    }

    /// Mark end of input and emit the trailing frames the centered regime
    /// extrapolates from reflected padding. Safe to call more than once.
    pub fn input_finished(&mut self) -> (frames: Vec<Vec<u32>>)
        requires
            old(self).wf(),
            old(self).history().len() + 2 * old(self).opts_spec().window_shift_spec() + 2 * old(
                self,
            ).opts_spec().window_size_spec() <= isize::MAX,
        ensures
            final(self).wf(),
            final(self).opts_spec() == old(self).opts_spec(),
            final(self).finished(),
            final(self).history() == old(self).history(),
            old(self).frames_output() <= final(self).frames_output(),
            final(self).frames_output() == num_frames_spec(
                final(self).history().len() as int,
                final(self).opts_spec(),
                true,
            ),
            old(self).discard_offset() <= final(self).discard_offset(),
            frames@.len() == final(self).frames_output() - old(self).frames_output(),
            forall|i: int|
                0 <= i < frames@.len() ==> frames@[i]@ == offline_frame_spec(
                    final(self).history(),
                    old(self).frames_output() + i,
                    final(self).opts_spec(),
                ),
    {
        proof {
            if !old(self).input_finished {
                lemma_num_frames_flush(
                    self.history@.len() as int,
                    self.computer.frame_opts_spec(),
                );
            }
        }
        self.input_finished = true;
        self.compute_new()
    }

    /// Detect newly determined frames, extract each one, and advance the
    /// discard cursor past samples no future frame can reference.
    fn compute_new(&mut self) -> (frames: Vec<Vec<u32>>)
        requires
            old(self).wf_core(),
            old(self).frames_output() <= num_frames_spec(
                old(self).history().len() as int,
                old(self).opts_spec(),
                old(self).finished(),
            ),
            old(self).history().len() + 2 * old(self).opts_spec().window_shift_spec() + 2 * old(
                self,
            ).opts_spec().window_size_spec() <= isize::MAX,
        ensures
            final(self).wf(),
            final(self).opts_spec() == old(self).opts_spec(),
            final(self).finished() == old(self).finished(),
            final(self).history() == old(self).history(),
            old(self).frames_output() <= final(self).frames_output(),
            old(self).discard_offset() <= final(self).discard_offset(),
            frames@.len() == final(self).frames_output() - old(self).frames_output(),
            forall|i: int|
                0 <= i < frames@.len() ==> frames@[i]@ == offline_frame_spec(
                    final(self).history(),
                    old(self).frames_output() + i,
                    final(self).opts_spec(),
                ),
    {
        let opts = *self.computer.frame_opts();
        let total = self.waveform_offset + self.waveform.len();
        let new_frames = num_frames(total, &opts, self.input_finished);
        let ghost done0 = self.frames_done as int;

        let mut frames: Vec<Vec<u32>> = Vec::new();
        let mut f = self.frames_done;
        while f < new_frames
            invariant
                self.wf_core(),
                opts == self.computer.frame_opts_spec(),
                opts.valid(),
                total == self.history@.len(),
                total + 2 * opts.window_shift_spec() + 2 * opts.window_size_spec() <= isize::MAX,
                new_frames == num_frames_spec(total as int, opts, self.input_finished),
                done0 == self.frames_done as int,
                done0 <= f <= new_frames,
                frames@.len() == f - done0,
                forall|i: int|
                    0 <= i < frames@.len() ==> frames@[i]@ == offline_frame_spec(
                        self.history@,
                        done0 + i,
                        opts,
                    ),
            decreases new_frames - f,
        {
            proof {
                let s = opts.window_shift_spec();
                let size = opts.window_size_spec();
                let start = first_sample_spec(f as int, opts);
                lemma_frame_bounds(total as int, f as int, opts, self.input_finished);
                lemma_first_sample_monotone(self.frames_done as int, f as int, opts);
                assert((f + 1) * s == f * s + s) by (nonlinear_arith);
                assert(f * s >= 0) by (nonlinear_arith)
                    requires f >= 0, s >= 0;
                assert(2 * start + size <= 2 * total + 1);
                assert(start <= total);
                if self.waveform_offset > 0 {
                    assert(self.waveform_offset < total);
                }
                if self.waveform_offset == 0 && !opts.snip_edges {
                    // A determined centered frame needs at least one sample.
                    if total == 0 {
                        let t = s / 2;
                        vstd::arithmetic::div_mod::lemma_fundamental_div_mod(s, 2);
                        vstd::arithmetic::div_mod::lemma_basic_div(t, s);
                        assert(num_frames_spec(0, opts, self.input_finished) == 0);
                        assert(false);
                    }
                }
            }
            let mut buf: Vec<u32> = Vec::new();
            let r = extract_window(self.waveform_offset, &self.waveform, f, &opts, &mut buf);
            proof {
                assert(frame_ready_spec(
                    self.waveform_offset as int,
                    self.waveform_offset + self.waveform@.len(),
                    f as int,
                    opts,
                ));
                assert(r.is_ok());
                lemma_streaming_frame_matches_offline(
                    self.waveform_offset as int,
                    self.history@,
                    f as int,
                    opts,
                );
            }
            frames.push(buf);
            f += 1;
        }
        self.frames_done = new_frames;

        proof {
            let s = opts.window_shift_spec();
            assert((new_frames + 1) * s == new_frames * s + s) by (nonlinear_arith);
            lemma_new_frames_start_bound(total as int, new_frames as int, opts,
                self.input_finished);
            lemma_first_sample_monotone(done0, new_frames as int, opts);
        }
        let next_start = first_sample_of_frame(new_frames, &opts);
        let discard_target: isize = if opts.snip_edges {
            next_start
        } else {
            next_start - 1
        };
        if discard_target > self.waveform_offset as isize {
            let discard = (discard_target as usize) - self.waveform_offset;
            if discard <= self.waveform.len() {
                let tail = self.waveform.split_off(discard);
                self.waveform = tail;
                self.waveform_offset = self.waveform_offset + discard;
                proof {
                    assert(self.waveform@ =~= self.history@.skip(self.waveform_offset as int));
                }
            }
        }
        frames
    }
}

/// The first sample of the frame one past the determined range stays within
/// one shift of the waveform end, so the discard cursor's target fits the
/// machine integers.
proof fn lemma_new_frames_start_bound(n: int, nf: int, opts: FrameOptions, flush: bool)
    requires
        opts.valid(),
        0 <= n,
        0 <= nf,
        nf == num_frames_spec(n, opts, flush),
    ensures
        nf * opts.window_shift_spec() <= n + opts.window_shift_spec(),
{
    let s = opts.window_shift_spec();
    let size = opts.window_size_spec();
    if opts.snip_edges {
        if n < size {
            assert(nf == 0);
        } else {
            let q = (n - size) / s;
            vstd::arithmetic::div_mod::lemma_fundamental_div_mod(n - size, s);
            vstd::arithmetic::div_mod::lemma_mod_bound(n - size, s);
            vstd::arithmetic::mul::lemma_mul_is_commutative(q, s);
            assert(q * s <= n - size);
            assert(nf == q + 1);
            assert((q + 1) * s == q * s + s) by (nonlinear_arith);
            assert(nf * s <= n - size + s);
        }
    } else {
        let base = (n + s / 2) / s;
        vstd::arithmetic::div_mod::lemma_fundamental_div_mod(n + s / 2, s);
        vstd::arithmetic::div_mod::lemma_mod_bound(n + s / 2, s);
        vstd::arithmetic::mul::lemma_mul_is_commutative(base, s);
        assert(base * s <= n + s / 2);
        vstd::arithmetic::div_mod::lemma_fundamental_div_mod(s, 2);
        assert(s / 2 <= s);
        if flush {
            assert(nf == base);
        } else {
            crate::window::lemma_centered_trim_le(base, n, opts);
            assert(nf <= base);
            assert(nf * s <= base * s) by (nonlinear_arith)
                requires nf <= base, s >= 0;
        }
        assert(nf * s <= n + s);
    }
}

} // verus!
