//! Integer plumbing between the frame loop and the GPU: how many thread
//! groups cover the output, and how the brightest-activation word that the
//! shader writes is unpacked.

use vstd::prelude::*;

verus! {

/// Number of `tile`-wide thread groups that cover `extent` pixels.
pub open spec fn groups_for(extent: nat, tile: nat) -> nat
    recommends
        tile > 0,
{
    ((extent + tile - 1) / (tile as int)) as nat
}

/// Thread groups needed along one axis: `extent` rounded up to whole
/// tiles of `tile` pixels.
pub fn thread_groups(extent: u64, tile: u64) -> (groups: u64)
    requires
        tile > 0,
        extent + tile - 1 <= u64::MAX,
    ensures
        groups == groups_for(extent as nat, tile as nat),
{
    (extent + (tile - 1)) / tile
}

/// The groups cover every pixel of the axis, and dropping one group would
/// leave some pixel uncovered.
pub proof fn lemma_groups_cover_exactly(extent: nat, tile: nat)
    requires
        tile > 0,
    ensures
        groups_for(extent, tile) * tile >= extent,
        groups_for(extent, tile) == 0 || (groups_for(extent, tile) - 1) * tile < extent,
{
    let g = groups_for(extent, tile);
    let n = extent + tile - 1;
    vstd::arithmetic::div_mod::lemma_fundamental_div_mod(n as int, tile as int);
    let r = n % (tile as int);
    assert(n == tile * g + r);
    assert(0 <= r < tile);
    assert(g * tile >= extent) by (nonlinear_arith)
        requires
            n == tile * g + r,
            r < tile,
            n == extent + tile - 1,
    ;
    if g > 0 {
        assert((g - 1) * tile < extent) by (nonlinear_arith)
            requires
                n == tile * g + r,
                r >= 0,
                n == extent + tile - 1,
                g > 0,
        ;
    }
}

/// Where and how strongly the network fired hardest in the last frame.
#[derive(Clone, Copy, Debug, PartialEq, Eq, Structural)]
pub struct BrightestActivation {
    /// Activation level in 1023ths.
    pub level: u32,
    /// Pixel column.
    pub x: u32,
    /// Pixel row.
    pub y: u32,
}

/// Splits the packed word: bits 22..32 the level, bits 11..22 the column,
/// bits 0..11 the row.
pub fn unpack_brightest(packed: u32) -> (a: BrightestActivation)
    ensures
        a.level == (packed >> 22u32) & 0x3ff,
        a.x == (packed >> 11u32) & 0x7ff,
        a.y == packed & 0x7ff,
        a.level < 1024,
        a.x < 2048,
        a.y < 2048,
{
    let level = (packed >> 22u32) & 0x3ff;
    let x = (packed >> 11u32) & 0x7ff;
    let y = packed & 0x7ff;
    assert(level < 1024 && x < 2048 && y < 2048) by (bit_vector)
        requires
            level == (packed >> 22u32) & 0x3ff,
            x == (packed >> 11u32) & 0x7ff,
            y == packed & 0x7ff,
    ;
    BrightestActivation { level, x, y }
}

/// Unpacking loses nothing: the three fields put back in place give the
/// packed word again.
pub proof fn lemma_unpack_is_lossless(packed: u32)
    ensures
        packed == ((((packed >> 22u32) & 0x3ff) << 22u32) | ((((packed >> 11u32) & 0x7ff)
            << 11u32) | (packed & 0x7ff))),
{
    assert(packed == ((((packed >> 22u32) & 0x3ff) << 22u32) | ((((packed >> 11u32) & 0x7ff)
        << 11u32) | (packed & 0x7ff)))) by (bit_vector);
}

} // verus!
