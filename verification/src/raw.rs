//! The raw-sample passthrough variant: each output frame is the padded
//! sample frame itself, unchanged.

use crate::window::FrameOptions;
use vstd::prelude::*;

verus! {

/// Configuration of the passthrough variant: frame geometry only.
#[derive(Clone, Copy, PartialEq, Eq, Structural, Debug)]
pub struct RawAudioOptions {
    pub frame_opts: FrameOptions,
}

impl Default for RawAudioOptions {
    fn default() -> (r: Self)
        ensures
            r.frame_opts == FrameOptions::default_spec(),
    {
        RawAudioOptions { frame_opts: FrameOptions::default() }
    }
}

/// The passthrough computer: its output dimension is the padded frame
/// length, and computing a frame copies the samples through unchanged.
pub struct RawAudioComputer {
    pub opts: RawAudioOptions,
}

impl RawAudioComputer {
    pub fn new(opts: RawAudioOptions) -> (r: Self)
        ensures
            r.opts == opts,
    {
        RawAudioComputer { opts }
    }

    /// Number of values in one output frame: the padded frame length.
    pub fn dim(&self) -> (r: usize)
        requires
            self.opts.frame_opts.valid(),
        ensures
            r == self.opts.frame_opts.padded_window_size_spec(),
    {
        self.opts.frame_opts.padded_window_size()
    }

    /// Copy the first `dim` sample words of `signal` into `feature`. When
    /// either buffer is shorter than one frame, nothing happens.
    pub fn compute(&self, signal: &Vec<u32>, feature: &mut Vec<u32>)
        requires
            self.opts.frame_opts.valid(),
        ensures
            final(feature)@.len() == old(feature)@.len(),
            ({
                let d = self.opts.frame_opts.padded_window_size_spec();
                if old(feature)@.len() >= d && signal@.len() >= d {
                    final(feature)@ == signal@.take(d) + old(feature)@.skip(d)
                } else {
                    final(feature)@ == old(feature)@
                }
            }),
    {
        let dim = self.dim();
        if feature.len() >= dim && signal.len() >= dim {
            let mut i: usize = 0;
            while i < dim
                invariant
                    i <= dim,
                    dim <= feature.len(),
                    dim <= signal.len(),
                    feature.len() == old(feature).len(),
                    forall|k: int| 0 <= k < i ==> feature@[k] == signal@[k],
                    forall|k: int| i <= k < feature@.len() ==> feature@[k] == old(feature)@[k],
                decreases dim - i,
            {
                let v = signal[i];
                feature[i] = v;
                i += 1;
            }
            proof {
                assert(feature@ =~= signal@.take(
                    self.opts.frame_opts.padded_window_size_spec(),
                ) + old(feature)@.skip(self.opts.frame_opts.padded_window_size_spec()));
            }
        }
    }
}

} // verus!
