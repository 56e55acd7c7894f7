//! The packed layout of the real-input spectral transform: index 0 holds the
//! DC real component, index 1 the Nyquist real component (the transform
//! length is even), and for `k` in `1 .. length/2` indices `2k` and `2k + 1`
//! hold the real and imaginary parts of bin `k`.
//!
//! The transform itself is real-valued work done outside the verified core;
//! this module owns the layout, over opaque value words.

use vstd::prelude::*;

verus! {

/// Real part of bin `k` in a packed spectrum of `bins == length/2 + 1` bins.
pub open spec fn packed_real_spec(packed: Seq<u32>, bins: int, k: int) -> u32 {
    if k == 0 {
        packed[0]
    } else if k == bins - 1 {
        packed[1]
    } else {
        packed[2 * k]
    }
}

/// Imaginary part of bin `k`: the DC and Nyquist bins are purely real.
pub open spec fn packed_imag_spec(packed: Seq<u32>, bins: int, k: int) -> u32 {
    if k == 0 || k == bins - 1 {
        0u32
    } else {
        packed[2 * k + 1]
    }
}

/// Split a packed spectrum into its `length/2 + 1` real and imaginary bin
/// values.
pub fn unpack_spectrum(packed: &Vec<u32>, n_fft: usize) -> (r: (Vec<u32>, Vec<u32>))
    requires
        2 <= n_fft,
        n_fft % 2 == 0,
        n_fft <= packed.len(),
    ensures
        r.0@.len() == n_fft / 2 + 1,
        r.1@.len() == n_fft / 2 + 1,
        forall|k: int|
            0 <= k < n_fft / 2 + 1 ==> r.0@[k] == packed_real_spec(
                packed@,
                n_fft as int / 2 + 1,
                k,
            ),
        forall|k: int|
            0 <= k < n_fft / 2 + 1 ==> r.1@[k] == packed_imag_spec(
                packed@,
                n_fft as int / 2 + 1,
                k,
            ),
{
    let bins = n_fft / 2 + 1;
    let mut re_out: Vec<u32> = Vec::new();
    let mut im_out: Vec<u32> = Vec::new();
    re_out.push(packed[0]);
    im_out.push(0);
    let mut k: usize = 1;
    while k < bins - 1
        invariant
            1 <= k <= bins - 1,
            bins == n_fft / 2 + 1,
            2 <= n_fft <= packed.len(),
            n_fft % 2 == 0,
            re_out@.len() == k,
            im_out@.len() == k,
            forall|j: int|
                0 <= j < k ==> re_out@[j] == packed_real_spec(packed@, bins as int, j),
            forall|j: int|
                0 <= j < k ==> im_out@[j] == packed_imag_spec(packed@, bins as int, j),
        decreases bins - k,
    {
        proof {
            vstd::arithmetic::div_mod::lemma_fundamental_div_mod(n_fft as int, 2);
        }
        let rv = packed[2 * k];
        let iv = packed[2 * k + 1];
        re_out.push(rv);
        im_out.push(iv);
        k += 1;
    }
    re_out.push(packed[1]);
    im_out.push(0);
    (re_out, im_out)
}

/// The packed spectrum holding the given `length/2 + 1` real and imaginary
/// bin values. The imaginary parts of the DC and Nyquist bins are not
/// representable in the layout and are dropped.
pub open spec fn packed_spectrum_spec(re: Seq<u32>, im: Seq<u32>, n_fft: int) -> Seq<u32> {
    Seq::new(
        n_fft as nat,
        |i: int|
            if i == 0 {
                re[0]
            } else if i == 1 {
                re[n_fft / 2]
            } else if i % 2 == 0 {
                re[i / 2]
            } else {
                im[i / 2]
            },
    )
}

/// Assemble a packed spectrum from its real and imaginary bin values.
pub fn pack_spectrum(re: &Vec<u32>, im: &Vec<u32>, n_fft: usize) -> (r: Vec<u32>)
    requires
        2 <= n_fft,
        n_fft % 2 == 0,
        re.len() == n_fft / 2 + 1,
        im.len() == n_fft / 2 + 1,
    ensures
        r@ == packed_spectrum_spec(re@, im@, n_fft as int),
        r@.len() == n_fft,
{
    proof {
        vstd::arithmetic::div_mod::lemma_fundamental_div_mod(n_fft as int, 2);
    }
    let bins = n_fft / 2 + 1;
    let mut out: Vec<u32> = Vec::new();
    out.push(re[0]);
    out.push(re[bins - 1]);
    let mut k: usize = 1;
    while k < bins - 1
        invariant
            1 <= k <= bins - 1,
            bins == n_fft / 2 + 1,
            2 <= n_fft,
            n_fft % 2 == 0,
            n_fft == 2 * (n_fft / 2),
            re@.len() == bins,
            im@.len() == bins,
            out@.len() == 2 * k,
            forall|i: int|
                0 <= i < out@.len() ==> out@[i] == packed_spectrum_spec(
                    re@,
                    im@,
                    n_fft as int,
                )[i],
        decreases bins - k,
    {
        let rv = re[k];
        let iv = im[k];
        out.push(rv);
        out.push(iv);
        k += 1;
    }
    proof {
        assert(out@ =~= packed_spectrum_spec(re@, im@, n_fft as int));
    }
    out
}

} // verus!
