//! Short-time transform framing: configuration, frame count, and the
//! centered padding of the input waveform.
//!
//! The transform itself is real-valued work done outside the verified core;
//! this module owns the integer framing arithmetic and builds the padded
//! sample sequence, over opaque sample words.

use crate::window::FrameOptions;
use vstd::prelude::*;

verus! {

/// How samples beyond the waveform are invented for centered padding.
#[derive(Clone, Copy, PartialEq, Eq, Structural, Debug)]
pub enum PadMode {
    Reflect,
    Replicate,
    Constant,
}

/// Short-time transform configuration. `frame_opts` only contributes the
/// window kind for the analysis window.
#[derive(Clone, Copy, PartialEq, Eq, Structural, Debug)]
pub struct StftOptions {
    pub frame_opts: FrameOptions,
    pub n_fft: usize,
    pub hop_length: usize,
    pub win_length: usize,
    pub center: bool,
    pub pad_mode: PadMode,
    pub normalized: bool,
}

impl Default for StftOptions {
    fn default() -> (r: Self)
        ensures
            r.frame_opts == FrameOptions::default_spec(),
            r.n_fft == 400,
            r.hop_length == 160,
            r.win_length == 400,
            r.center,
            r.pad_mode == PadMode::Reflect,
            !r.normalized,
    {
        StftOptions {
            frame_opts: FrameOptions::default(),
            n_fft: 400,
            hop_length: 160,
            win_length: 400,
            center: true,
            pad_mode: PadMode::Reflect,
            normalized: false,
        }
    }
}

/// Frames of length `n_fft` advancing by `hop_length` that fit inside
/// `num_samples` samples.
pub open spec fn stft_frames_spec(num_samples: int, n_fft: int, hop_length: int) -> int {
    if num_samples < n_fft {
        0
    } else {
        1 + (num_samples - n_fft) / hop_length
    }
}

pub fn stft_num_frames(num_samples: usize, n_fft: usize, hop_length: usize) -> (r: usize)
    requires
        1 <= hop_length,
        1 <= n_fft,
    ensures
        r == stft_frames_spec(num_samples as int, n_fft as int, hop_length as int),
{
    if num_samples < n_fft {
        return 0;
    }
    let q = (num_samples - n_fft) / hop_length;
    proof {
        assert((num_samples - n_fft) / (hop_length as int) <= num_samples - n_fft)
            by (nonlinear_arith)
            requires hop_length >= 1, num_samples >= n_fft;
    }
    1 + q
}

/// The sample sequence after centered padding: `pad` invented samples on
/// each side of the waveform. Reflection mirrors around the first and last
/// samples (clamped to the waveform for very short inputs), replication
/// repeats the edge samples, constant padding uses zero words.
pub open spec fn stft_padded_spec(wave: Seq<u32>, pad: int, mode: PadMode) -> Seq<u32> {
    let len = wave.len() as int;
    let left = Seq::new(
        pad as nat,
        |i: int|
            match mode {
                PadMode::Reflect => wave[if pad - i >= len {
                    len - 1
                } else {
                    pad - i
                }],
                PadMode::Replicate => if len == 0 {
                    0u32
                } else {
                    wave[0]
                },
                PadMode::Constant => 0u32,
            },
    );
    let right = Seq::new(
        pad as nat,
        |i: int|
            match mode {
                PadMode::Reflect => wave[if len - 2 - i >= 0 {
                    len - 2 - i
                } else {
                    0
                }],
                PadMode::Replicate => if len == 0 {
                    0u32
                } else {
                    wave[len - 1]
                },
                PadMode::Constant => 0u32,
            },
    );
    left + wave + right
}

/// Build the padded waveform the transform frames walk over: the waveform
/// itself when padding is off, otherwise `n_fft / 2` invented samples on
/// each side.
pub fn stft_pad(wave: &Vec<u32>, opts: &StftOptions) -> (r: Vec<u32>)
    requires
        wave.len() + opts.n_fft <= usize::MAX,
        opts.center && opts.pad_mode == PadMode::Reflect && opts.n_fft >= 2 ==> wave.len() >= 1,
    ensures
        opts.center ==> r@ == stft_padded_spec(wave@, opts.n_fft as int / 2, opts.pad_mode),
        !opts.center ==> r@ == wave@,
{
    let pad: usize = if opts.center {
        opts.n_fft / 2
    } else {
        0
    };
    let len = wave.len();
    let ghost target: Seq<u32> = if opts.center {
        stft_padded_spec(wave@, pad as int, opts.pad_mode)
    } else {
        wave@
    };
    proof {
        assert(target.len() == 2 * pad + len);
    }
    let mut out: Vec<u32> = Vec::new();
    let mut i: usize = 0;
    while i < pad
        invariant
            i <= pad,
            pad >= 1 ==> opts.center,
            pad == (if opts.center { (opts.n_fft / 2) as int } else { 0int }),
            len == wave.len(),
            opts.center && opts.pad_mode == PadMode::Reflect && pad >= 1 ==> len >= 1,
            target == (if opts.center {
                stft_padded_spec(wave@, pad as int, opts.pad_mode)
            } else {
                wave@
            }),
            target.len() == 2 * pad + len,
            out@.len() == i,
            forall|j: int| 0 <= j < i ==> out@[j] == target[j],
        decreases pad - i,
    {
        let v: u32 = match opts.pad_mode {
            PadMode::Reflect => {
                let idx = pad - i;
                if idx >= len {
                    wave[len - 1]
                } else {
                    wave[idx]
                }
            },
            PadMode::Replicate => {
                if len == 0 {
                    0
                } else {
                    wave[0]
                }
            },
            PadMode::Constant => 0,
        };
        out.push(v);
        i += 1;
    }
    let mut k: usize = 0;
    while k < len
        invariant
            k <= len,
            len == wave.len(),
            pad == (if opts.center { (opts.n_fft / 2) as int } else { 0int }),
            target == (if opts.center {
                stft_padded_spec(wave@, pad as int, opts.pad_mode)
            } else {
                wave@
            }),
            target.len() == 2 * pad + len,
            out@.len() == pad + k,
            forall|j: int| 0 <= j < out@.len() ==> out@[j] == target[j],
        decreases len - k,
    {
        let v = wave[k];
        out.push(v);
        k += 1;
    }
    let mut t: usize = 0;
    while t < pad
        invariant
            t <= pad,
            pad >= 1 ==> opts.center,
            pad == (if opts.center { (opts.n_fft / 2) as int } else { 0int }),
            len == wave.len(),
            opts.center && opts.pad_mode == PadMode::Reflect && pad >= 1 ==> len >= 1,
            target == (if opts.center {
                stft_padded_spec(wave@, pad as int, opts.pad_mode)
            } else {
                wave@
            }),
            target.len() == 2 * pad + len,
            out@.len() == pad + len + t,
            forall|j: int| 0 <= j < out@.len() ==> out@[j] == target[j],
        decreases pad - t,
    {
        let v: u32 = match opts.pad_mode {
            PadMode::Reflect => {
                let idx = (len.saturating_sub(2)).saturating_sub(t);
                wave[idx]
            },
            PadMode::Replicate => {
                if len == 0 {
                    0
                } else {
                    wave[len - 1]
                }
            },
            PadMode::Constant => 0,
        };
        out.push(v);
        t += 1;
    }
    proof {
        assert(out@ =~= target);
    }
    out
}

} // verus!
