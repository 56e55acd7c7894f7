//! Mel filterbank configuration and its validity rules.
//!
//! The triangular weight matrix itself is real-valued and is built by the
//! numeric layer; the verified core owns the configuration record, the
//! frequency-range validity decision, and the matrix shape.

use crate::window::FrameOptions;
use vstd::prelude::*;

verus! {

/// Row normalization convention for the filterbank weights.
#[derive(Clone, Copy, PartialEq, Eq, Structural, Debug)]
pub enum MelNorm {
    Slaney,
    Unnormalized,
}

/// Mel filterbank configuration. Frequencies are integral hertz; a
/// non-positive `high_freq` (or `vtln_high`) is an offset below the Nyquist
/// frequency.
#[derive(Clone, Copy, PartialEq, Eq, Structural, Debug)]
pub struct MelOptions {
    pub num_bins: usize,
    pub low_freq: i32,
    pub high_freq: i32,
    pub vtln_low: i32,
    pub vtln_high: i32,
    pub htk_mode: bool,
    pub is_librosa: bool,
    pub use_slaney_mel_scale: bool,
    pub norm: MelNorm,
    pub floor_to_int_bin: bool,
    pub debug_mel: bool,
}

impl MelOptions {
    /// The default configuration: 25 bins between 20 Hz and the Nyquist
    /// frequency, standard warp bounds, no legacy modes.
    pub open spec fn default_spec() -> MelOptions {
        MelOptions {
            num_bins: 25,
            low_freq: 20,
            high_freq: 0,
            vtln_low: 100,
            vtln_high: -500i32,
            htk_mode: false,
            is_librosa: false,
            use_slaney_mel_scale: true,
            norm: MelNorm::Slaney,
            floor_to_int_bin: false,
            debug_mel: false,
        }
    }
}

impl Default for MelOptions {
    fn default() -> (r: Self)
        ensures
            r == MelOptions::default_spec(),
    {
        MelOptions {
            num_bins: 25,
            low_freq: 20,
            high_freq: 0,
            vtln_low: 100,
            vtln_high: -500,
            htk_mode: false,
            is_librosa: false,
            use_slaney_mel_scale: true,
            norm: MelNorm::Slaney,
            floor_to_int_bin: false,
            debug_mel: false,
        }
    }
}

/// The effective upper mel frequency, doubled so the Nyquist frequency
/// `samp_freq / 2` stays exact: a positive `high_freq` is used as is, any
/// other value is an offset below Nyquist.
pub open spec fn high_freq_x2_spec(mel: MelOptions, samp_freq: int) -> int {
    if mel.high_freq > 0 {
        2 * mel.high_freq
    } else {
        samp_freq + 2 * mel.high_freq
    }
}

/// The frequency range a filterbank can be built over: the low bound sits in
/// `[0, Nyquist)`, the effective high bound in `(0, Nyquist]`, and the range
/// is non-empty.
pub open spec fn valid_mel_range_spec(mel: MelOptions, samp_freq: int) -> bool {
    &&& 0 <= mel.low_freq
    &&& 2 * mel.low_freq < samp_freq
    &&& 0 < high_freq_x2_spec(mel, samp_freq)
    &&& high_freq_x2_spec(mel, samp_freq) <= samp_freq
    &&& 2 * mel.low_freq < high_freq_x2_spec(mel, samp_freq)
}

/// Construction-time failure of a feature computer.
#[derive(Clone, Copy, PartialEq, Eq, Structural, Debug)]
pub enum MelError {
    InvalidFrequencyRange,
}

/// Shape of one triangular mel filterbank: `num_bins` rows over
/// `num_fft_bins` spectral columns (the transform length halved; the Nyquist
/// column is never read).
#[derive(Clone, Copy, PartialEq, Eq, Structural, Debug)]
pub struct MelBanks {
    pub num_bins: usize,
    pub num_fft_bins: usize,
}

impl MelBanks {
    /// Check the mel frequency range against the sample rate and fix the
    /// matrix shape. Fails exactly when the range is invalid.
    pub fn new(opts: &MelOptions, frame_opts: &FrameOptions) -> (r: Result<MelBanks, MelError>)
        requires
            frame_opts.valid(),
        ensures
            r.is_ok() == valid_mel_range_spec(*opts, frame_opts.samp_freq as int),
            r.is_ok() ==> r == Ok::<MelBanks, MelError>(MelBanks {
                num_bins: opts.num_bins,
                num_fft_bins: (frame_opts.padded_window_size_spec() / 2) as usize,
            }),
            r.is_err() ==> r == Err::<MelBanks, MelError>(MelError::InvalidFrequencyRange),
    {
        let window_length_padded = frame_opts.padded_window_size();
        let num_fft_bins = window_length_padded / 2;
        let sf = frame_opts.samp_freq as i64;
        let low2 = 2 * (opts.low_freq as i64);
        let high2: i64 = if opts.high_freq > 0 {
            2 * (opts.high_freq as i64)
        } else {
            sf + 2 * (opts.high_freq as i64)
        };
        if opts.low_freq < 0 || low2 >= sf || high2 <= 0 || high2 > sf || high2 <= low2 {
            return Err(MelError::InvalidFrequencyRange);
        }
        Ok(MelBanks { num_bins: opts.num_bins, num_fft_bins })
    }
}

} // verus!
