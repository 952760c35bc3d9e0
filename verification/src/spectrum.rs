//! How a window of audio samples is cut into the bass, mid and treble bands
//! whose loudness drives the effects.

use vstd::prelude::*;

verus! {

/// Number of bands: bass, mid, treble.
pub const SPECTRUM_BANDS: usize = 3;

/// First sample of band `band` in a window of `len` samples.
pub open spec fn band_start(len: nat, band: nat) -> nat {
    band * (len / 3)
}

/// One past the last sample of band `band`: the next band boundary, never
/// beyond the window.
pub open spec fn band_end(len: nat, band: nat) -> nat {
    if (band + 1) * (len / 3) <= len {
        (band + 1) * (len / 3)
    } else {
        len
    }
}

/// The sample range `[start, end)` of band `band` (0 bass, 1 mid, 2 treble)
/// in a window of `len` samples: the window is cut into three chunks of
/// `len / 3` samples.
pub fn band_range(len: usize, band: usize) -> (r: (usize, usize))
    requires
        band < SPECTRUM_BANDS,
    ensures
        r.0 == band_start(len as nat, band as nat),
        r.1 == band_end(len as nat, band as nat),
{
    let chunk_size = len / 3;
    proof {
        lemma_chunk_multiples(len as nat, (band + 1) as nat);
    }
    let start = band * chunk_size;
    let next = (band + 1) * chunk_size;
    let end = if next < len { next } else { len };
    (start, end)
}

/// Up to three chunks of `len / 3` fit in `len`.
proof fn lemma_chunk_multiples(len: nat, k: nat)
    requires
        k <= 3,
    ensures
        k * (len / 3) <= len,
        (k - 1) * (len / 3) <= k * (len / 3),
{
    assert(k * (len / 3) <= 3 * (len / 3)) by (nonlinear_arith)
        requires
            k <= 3,
    ;
    assert((k - 1) * (len / 3) <= k * (len / 3)) by (nonlinear_arith);
}

/// The three bands tile the window from its start without gaps or overlap:
/// each band is `len / 3` samples long, each starts where the previous one
/// ends, and at most two trailing samples are left out.
pub proof fn lemma_bands_tile_window(len: nat)
    ensures
        band_start(len, 0) == 0,
        band_end(len, 0) == band_start(len, 1),
        band_end(len, 1) == band_start(len, 2),
        forall|b: nat| b < 3 ==> #[trigger] band_end(len, b) - band_start(len, b) == len / 3,
        band_end(len, 2) <= len,
        len - band_end(len, 2) < 3,
{
    lemma_chunk_multiples(len, 1);
    lemma_chunk_multiples(len, 2);
    lemma_chunk_multiples(len, 3);
    assert(3 * (len / 3) == (len / 3) + (len / 3) + (len / 3));
    assert(2 * (len / 3) == (len / 3) + (len / 3));
}

} // verus!
