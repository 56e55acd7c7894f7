//! Mel-frequency cepstral coefficients: configuration, output dimension, and
//! the HTK-compatible reordering of each produced frame.
//!
//! The transform, the DCT and the lifter are real-valued work done by the
//! numeric layer; the verified core decides the output shape and the final
//! coefficient order.

use crate::mel::{valid_mel_range_spec, MelBanks, MelError, MelOptions};
use crate::window::FrameOptions;
use vstd::prelude::*;

verus! {

/// Cepstral feature configuration. The real-valued knobs (cepstral lifter
/// parameter, energy floor) live beside the numeric layer.
#[derive(Clone, Copy, PartialEq, Eq, Structural, Debug)]
pub struct MfccOptions {
    pub frame_opts: FrameOptions,
    pub mel_opts: MelOptions,
    /// Number of cepstral coefficients kept after the DCT.
    pub num_ceps: usize,
    /// Overwrite coefficient zero with the log-energy.
    pub use_energy: bool,
    /// Use the pre-window energy instead of recomputing it after windowing.
    pub raw_energy: bool,
    /// HTK-compatible output order: coefficient zero moves to the last slot.
    pub htk_compat: bool,
}

impl Default for MfccOptions {
    fn default() -> (r: Self)
        ensures
            r.frame_opts == FrameOptions::default_spec(),
            r.mel_opts == MelOptions::default_spec(),
            r.num_ceps == 13,
            r.use_energy,
            r.raw_energy,
            !r.htk_compat,
    {
        MfccOptions {
            frame_opts: FrameOptions::default(),
            mel_opts: MelOptions::default(),
            num_ceps: 13,
            use_energy: true,
            raw_energy: true,
            htk_compat: false,
        }
    }
}

/// Shape of the cepstral pipeline for one configuration.
pub struct MfccComputer {
    pub opts: MfccOptions,
    pub mel_banks: MelBanks,
}

impl MfccComputer {
    /// Validate the configuration. Fails exactly when the mel frequency
    /// range is invalid for the configured sample rate.
    pub fn new(opts: MfccOptions) -> (r: Result<MfccComputer, MelError>)
        requires
            opts.frame_opts.valid(),
        ensures
            r.is_ok() == valid_mel_range_spec(opts.mel_opts, opts.frame_opts.samp_freq as int),
            r.is_ok() ==> r.unwrap().opts == opts,
            r.is_err() ==> r == Err::<MfccComputer, MelError>(MelError::InvalidFrequencyRange),
    {
        let mel_banks = match MelBanks::new(&opts.mel_opts, &opts.frame_opts) {
            Ok(m) => m,
            Err(e) => {
                return Err(e);
            },
        };
        Ok(MfccComputer { opts, mel_banks })
    }

    /// Number of values in one output frame.
    pub fn dim(&self) -> (r: usize)
        ensures
            r == self.opts.num_ceps,
    {
        self.opts.num_ceps
    }

    /// HTK-compatible reordering of one cepstral frame: every coefficient
    /// moves down one slot and coefficient zero takes the last slot.
    ///
    /// When energy is not in use the legacy convention rescales the trailing
    /// value by the square root of two; the numeric layer computes that
    /// rescaled word and passes it as `scaled_first`, otherwise coefficient
    /// zero moves unchanged.
    pub fn htk_finalize(&self, feature: &mut Vec<u32>, scaled_first: Option<u32>)
        requires
            self.opts.htk_compat,
            1 <= self.opts.num_ceps,
            old(feature).len() == self.opts.num_ceps,
            scaled_first.is_some() == !self.opts.use_energy,
        ensures
            final(feature)@ == old(feature)@.subrange(1, self.opts.num_ceps as int).push(
                if self.opts.use_energy {
                    old(feature)@[0]
                } else {
                    scaled_first.unwrap()
                },
            ),
    {
        let num_ceps = self.opts.num_ceps;
        let last: u32 = match scaled_first {
            Some(s) => s,
            None => feature[0],
        };
        let mut i: usize = 0;
        while i < num_ceps - 1
            invariant
                num_ceps == self.opts.num_ceps,
                1 <= num_ceps,
                feature.len() == num_ceps,
                i <= num_ceps - 1,
                forall|k: int| 0 <= k < i ==> feature@[k] == old(feature)@[k + 1],
                forall|k: int| i <= k < num_ceps ==> feature@[k] == old(feature)@[k],
            decreases num_ceps - i,
        {
            let v = feature[i + 1];
            feature[i] = v;
            i += 1;
        }
        feature[num_ceps - 1] = last;
        proof {
            assert(feature@ =~= old(feature)@.subrange(1, self.opts.num_ceps as int).push(
                if self.opts.use_energy {
                    old(feature)@[0]
                } else {
                    scaled_first.unwrap()
                },
            ));
        }
    }
}

} // verus!
