//! Inverse short-time transform framing: configuration and the overlap-add
//! output-length arithmetic.
//!
//! The overlap-add synthesis itself is real-valued work done outside the
//! verified core.

use crate::stft::StftOptions;
use crate::window::WindowKind;
use vstd::prelude::*;

verus! {

/// Inverse short-time transform configuration.
#[derive(Clone, Copy, PartialEq, Eq, Structural, Debug)]
pub struct IstftOptions {
    pub n_fft: usize,
    pub hop_length: usize,
    pub win_length: usize,
    pub window_type: WindowKind,
    pub center: bool,
    pub normalized: bool,
}

impl Default for IstftOptions {
    fn default() -> (r: Self)
        ensures
            r.n_fft == 400,
            r.hop_length == 160,
            r.win_length == 400,
            r.window_type == WindowKind::Povey,
            r.center,
            !r.normalized,
    {
        IstftOptions {
            n_fft: 400,
            hop_length: 160,
            win_length: 400,
            window_type: WindowKind::Povey,
            center: true,
            normalized: false,
        }
    }
}

impl<'a> From<&'a StftOptions> for IstftOptions {
    /// The inverse configuration matching a forward configuration.
    fn from(s: &'a StftOptions) -> (r: Self) {
        IstftOptions {
            n_fft: s.n_fft,
            hop_length: s.hop_length,
            win_length: s.win_length,
            window_type: s.frame_opts.window_type,
            center: s.center,
            normalized: s.normalized,
        }
    }
}

impl<'a> vstd::std_specs::convert::FromSpecImpl<&'a StftOptions> for IstftOptions {
    open spec fn obeys_from_spec() -> bool {
        true
    }

    open spec fn from_spec(s: &'a StftOptions) -> Self {
        IstftOptions {
            n_fft: s.n_fft,
            hop_length: s.hop_length,
            win_length: s.win_length,
            window_type: s.frame_opts.window_type,
            center: s.center,
            normalized: s.normalized,
        }
    }
}

/// Samples the overlap-add of `num_frames` frames covers before trimming.
pub open spec fn istft_total_len_spec(n_fft: int, hop_length: int, num_frames: int) -> int {
    n_fft + (num_frames - 1) * hop_length
}

pub fn istft_total_len(n_fft: usize, hop_length: usize, num_frames: usize) -> (r: usize)
    requires
        1 <= num_frames,
        n_fft + (num_frames - 1) * hop_length <= usize::MAX,
    ensures
        r == istft_total_len_spec(n_fft as int, hop_length as int, num_frames as int),
{
    proof {
        assert((num_frames - 1) * hop_length >= 0) by (nonlinear_arith)
            requires num_frames >= 1, hop_length >= 0;
    }
    n_fft + (num_frames - 1) * hop_length
}

/// Output length after centered trimming: `n_fft / 2` samples are cut from
/// each end, and a waveform too short for that yields nothing.
pub open spec fn istft_trimmed_len_spec(total: int, n_fft: int, center: bool) -> int {
    if !center {
        total
    } else if total > 2 * (n_fft / 2) {
        total - 2 * (n_fft / 2)
    } else {
        0
    }
}

pub fn istft_trimmed_len(total: usize, n_fft: usize, center: bool) -> (r: usize)
    ensures
        r == istft_trimmed_len_spec(total as int, n_fft as int, center),
{
    if !center {
        return total;
    }
    let cut = n_fft / 2;
    proof {
        vstd::arithmetic::div_mod::lemma_fundamental_div_mod(n_fft as int, 2);
        vstd::arithmetic::div_mod::lemma_mod_bound(n_fft as int, 2);
    }
    if total > 2 * cut {
        total - 2 * cut
    } else {
        0
    }
}

} // verus!
