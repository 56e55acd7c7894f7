//! The mel-spectrogram variant used by certain neural transcription
//! front-ends: fixed non-default framing, a mel filterbank from 0 Hz to
//! Nyquist, and linear (no logarithm, no energy) output.

use crate::mel::{valid_mel_range_spec, MelBanks, MelError, MelNorm, MelOptions};
use crate::window::{FrameOptions, WindowKind};
use vstd::prelude::*;

verus! {

/// Configuration of the mel-spectrogram variant: frame geometry plus the
/// number of mel bins.
#[derive(Clone, Copy, PartialEq, Eq, Structural, Debug)]
pub struct WhisperOptions {
    pub frame_opts: FrameOptions,
    pub dim: usize,
}

impl WhisperOptions {
    /// The fixed front-end defaults: 16 kHz, 25 ms frames every 10 ms, no
    /// DC removal, Hann window, unrounded transform length, centered
    /// boundary policy, 80 mel bins.
    pub open spec fn default_spec() -> WhisperOptions {
        WhisperOptions {
            frame_opts: FrameOptions {
                samp_freq: 16000,
                frame_shift_ms: 10,
                frame_length_ms: 25,
                remove_dc_offset: false,
                window_type: WindowKind::Hann,
                round_to_power_of_two: false,
                snip_edges: false,
            },
            dim: 80,
        }
    }
}

impl Default for WhisperOptions {
    fn default() -> (r: Self)
        ensures
            r == WhisperOptions::default_spec(),
            r.frame_opts.valid(),
    {
        WhisperOptions {
            frame_opts: FrameOptions {
                samp_freq: 16000,
                frame_shift_ms: 10,
                frame_length_ms: 25,
                remove_dc_offset: false,
                window_type: WindowKind::Hann,
                round_to_power_of_two: false,
                snip_edges: false,
            },
            dim: 80,
        }
    }
}

/// The mel configuration this variant derives from its bin count: full
/// 0 Hz to Nyquist range, slaney-style scale and normalization.
pub open spec fn whisper_mel_opts_spec(dim: usize) -> MelOptions {
    MelOptions {
        num_bins: dim,
        low_freq: 0,
        high_freq: 0,
        vtln_low: 100,
        vtln_high: -500i32,
        htk_mode: false,
        is_librosa: true,
        use_slaney_mel_scale: true,
        norm: MelNorm::Slaney,
        floor_to_int_bin: false,
        debug_mel: false,
    }
}

/// Shape of the mel-spectrogram pipeline for one configuration.
pub struct WhisperComputer {
    pub opts: WhisperOptions,
    pub mel_banks: MelBanks,
}

impl WhisperComputer {
    /// Validate the derived mel configuration. Fails exactly when the mel
    /// frequency range is invalid for the configured sample rate, which for
    /// the full 0 Hz to Nyquist range only happens at a zero sample rate.
    pub fn new(opts: WhisperOptions) -> (r: Result<WhisperComputer, MelError>)
        requires
            opts.frame_opts.valid(),
        ensures
            r.is_ok() == valid_mel_range_spec(
                whisper_mel_opts_spec(opts.dim),
                opts.frame_opts.samp_freq as int,
            ),
            r.is_ok() ==> r.unwrap().opts == opts,
            r.is_err() ==> r == Err::<WhisperComputer, MelError>(MelError::InvalidFrequencyRange),
    {
        let mut mel_opts = MelOptions::default();
        mel_opts.num_bins = opts.dim;
        mel_opts.low_freq = 0;
        mel_opts.is_librosa = true;
        mel_opts.use_slaney_mel_scale = true;
        mel_opts.norm = crate::mel::MelNorm::Slaney;
        proof {
            assert(mel_opts == whisper_mel_opts_spec(opts.dim));
        }
        let mel_banks = match MelBanks::new(&mel_opts, &opts.frame_opts) {
            Ok(m) => m,
            Err(e) => {
                return Err(e);
            },
        };
        Ok(WhisperComputer { opts, mel_banks })
    }

    /// Number of values in one output frame: the mel bin count.
    pub fn dim(&self) -> (r: usize)
        ensures
            r == self.opts.dim,
    {
        self.opts.dim
    }
}

} // verus!
