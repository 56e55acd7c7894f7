//! Log-mel filterbank features: configuration, output dimension, and the
//! layout of each produced frame.
//!
//! The spectral transform, the logarithms and the energy floor are
//! real-valued work done by the numeric layer; the verified core decides the
//! output shape and where the mel block and the energy slot go.

use crate::mel::{valid_mel_range_spec, MelBanks, MelError, MelOptions};
use crate::window::FrameOptions;
use vstd::prelude::*;

verus! {

/// Log-mel filterbank configuration. The real-valued energy floor lives
/// beside the numeric layer.
#[derive(Clone, Copy, PartialEq, Eq, Structural, Debug)]
pub struct FbankOptions {
    pub frame_opts: FrameOptions,
    pub mel_opts: MelOptions,
    /// Prepend (or, HTK-compatible, append) a log-energy dimension.
    pub use_energy: bool,
    /// Use the pre-window energy instead of recomputing it after windowing.
    pub raw_energy: bool,
    /// HTK-compatible output layout: the energy slot moves to the end.
    pub htk_compat: bool,
    /// Apply the natural logarithm to every mel bin.
    pub use_log_fbank: bool,
    /// Integrate the power spectrum rather than the magnitude spectrum.
    pub use_power: bool,
}

impl Default for FbankOptions {
    fn default() -> (r: Self)
        ensures
            r.frame_opts == FrameOptions::default_spec(),
            r.mel_opts == MelOptions::default_spec(),
            r.use_energy,
            r.raw_energy,
            !r.htk_compat,
            r.use_log_fbank,
            r.use_power,
    {
        FbankOptions {
            frame_opts: FrameOptions::default(),
            mel_opts: MelOptions::default(),
            use_energy: true,
            raw_energy: true,
            htk_compat: false,
            use_log_fbank: true,
            use_power: true,
        }
    }
}

/// Output width: one slot per mel bin, plus a leading energy slot unless the
/// HTK-compatible layout is selected.
pub open spec fn fbank_dim_spec(opts: FbankOptions) -> int {
    opts.mel_opts.num_bins + (if opts.use_energy && !opts.htk_compat {
        1int
    } else {
        0
    })
}

/// First slot of the mel block inside one output frame.
pub open spec fn mel_offset_spec(opts: FbankOptions) -> int {
    if opts.use_energy && !opts.htk_compat {
        1
    } else {
        0
    }
}

/// Slot of the energy value inside one output frame.
pub open spec fn energy_index_spec(opts: FbankOptions) -> int {
    if opts.htk_compat {
        opts.mel_opts.num_bins as int
    } else {
        0
    }
}

/// Shape of the log-mel filterbank pipeline for one configuration.
pub struct FbankComputer {
    pub opts: FbankOptions,
    pub mel_banks: MelBanks,
}

impl FbankComputer {
    /// Validate the configuration. Fails exactly when the mel frequency
    /// range is invalid for the configured sample rate.
    pub fn new(opts: FbankOptions) -> (r: Result<FbankComputer, MelError>)
        requires
            opts.frame_opts.valid(),
        ensures
            r.is_ok() == valid_mel_range_spec(opts.mel_opts, opts.frame_opts.samp_freq as int),
            r.is_ok() ==> r.unwrap().opts == opts,
            r.is_err() ==> r == Err::<FbankComputer, MelError>(MelError::InvalidFrequencyRange),
    {
        let mel_banks = match MelBanks::new(&opts.mel_opts, &opts.frame_opts) {
            Ok(m) => m,
            Err(e) => {
                return Err(e);
            },
        };
        Ok(FbankComputer { opts, mel_banks })
    }

    /// Number of values in one output frame.
    pub fn dim(&self) -> (r: usize)
        requires
            fbank_dim_spec(self.opts) <= usize::MAX,
        ensures
            r == fbank_dim_spec(self.opts),
    {
        self.opts.mel_opts.num_bins + (if self.opts.use_energy && !self.opts.htk_compat {
            1
        } else {
            0
        })
    }

    /// Assemble one output frame from the integrated (and, when configured,
    /// log-compressed) mel values and the floored log-energy word: the mel
    /// block fills the frame from `mel_offset_spec` on, and the energy word
    /// takes the energy slot when energy is in use.
    ///
    /// An HTK-compatible layout with energy would address one slot past the
    /// output frame, so that combination is excluded.
    pub fn place_feature(&self, mel_out: &Vec<u32>, energy: u32, feature: &mut Vec<u32>)
        requires
            mel_out.len() == self.opts.mel_opts.num_bins,
            old(feature).len() == fbank_dim_spec(self.opts),
            !(self.opts.use_energy && self.opts.htk_compat),
        ensures
            final(feature)@.len() == fbank_dim_spec(self.opts),
            forall|j: int|
                0 <= j < self.opts.mel_opts.num_bins ==> final(feature)@[mel_offset_spec(
                    self.opts,
                ) + j] == mel_out@[j],
            self.opts.use_energy ==> final(feature)@[energy_index_spec(self.opts)] == energy,
    {
        let num_bins = self.opts.mel_opts.num_bins;
        let off: usize = if self.opts.use_energy && !self.opts.htk_compat {
            1
        } else {
            0
        };
        let mut j: usize = 0;
        while j < num_bins
            invariant
                off == mel_offset_spec(self.opts),
                num_bins == self.opts.mel_opts.num_bins,
                mel_out.len() == num_bins,
                feature.len() == fbank_dim_spec(self.opts),
                off + num_bins <= feature.len(),
                j <= num_bins,
                forall|k: int| 0 <= k < j ==> feature@[off + k] == mel_out@[k],
            decreases num_bins - j,
        {
            let v = mel_out[j];
            feature[off + j] = v;
            j += 1;
        }
        if self.opts.use_energy {
            feature[0] = energy;
        }
    }
}

} // verus!
