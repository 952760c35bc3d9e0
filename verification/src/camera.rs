//! Checks on a captured camera frame before it is handed to the GPU, and
//! the centre crop of the camera image into the output window.

use vstd::prelude::*;

verus! {

/// Fewest bytes per pixel the renderer can read (RGB).
pub const MIN_CHANNELS: usize = 3;

/// Most bytes per pixel the renderer reads (RGBA); extra bytes are ignored.
pub const MAX_CHANNELS: usize = 4;

/// What a camera frame buffer of a given size holds.
#[derive(Clone, Copy, Debug, PartialEq, Eq, Structural)]
pub enum FrameLayout {
    /// The camera reports a resolution with no pixels.
    Empty,
    /// The buffer is not a whole number of bytes per pixel.
    Misaligned { pixels: usize },
    /// Fewer than three bytes per pixel: neither RGB nor RGBA.
    TooFewChannels { channels: usize },
    /// Usable: the renderer reads `channels` bytes per pixel (3 or 4).
    Ready { channels: usize },
}

/// The layout of a buffer of `len` bytes for a `w` by `h` frame.
pub open spec fn layout_of(len: nat, w: nat, h: nat) -> FrameLayout {
    let pixels = w * h;
    if pixels == 0 {
        FrameLayout::Empty
    } else if len % pixels != 0 {
        FrameLayout::Misaligned { pixels: pixels as usize }
    } else if len / pixels < MIN_CHANNELS {
        FrameLayout::TooFewChannels { channels: (len / pixels) as usize }
    } else if len / pixels > MAX_CHANNELS {
        FrameLayout::Ready { channels: MAX_CHANNELS }
    } else {
        FrameLayout::Ready { channels: (len / pixels) as usize }
    }
}

/// Classifies a camera buffer of `len` bytes for a `cam_w` by `cam_h`
/// frame: empty resolution, a size that is not a whole number of bytes
/// per pixel, fewer than 3 bytes per pixel, or ready with 3 or 4 channels
/// (more than 4 bytes per pixel are read as 4).
pub fn frame_layout(len: usize, cam_w: usize, cam_h: usize) -> (layout: FrameLayout)
    requires
        cam_w * cam_h <= usize::MAX,
    ensures
        layout == layout_of(len as nat, cam_w as nat, cam_h as nat),
{
    let pixel_count = cam_w * cam_h;
    if pixel_count == 0 {
        FrameLayout::Empty
    } else if len % pixel_count != 0 {
        FrameLayout::Misaligned { pixels: pixel_count }
    } else {
        let mut channels = len / pixel_count;
        if channels < MIN_CHANNELS {
            FrameLayout::TooFewChannels { channels }
        } else {
            if channels > MAX_CHANNELS {
                channels = MAX_CHANNELS;
            }
            FrameLayout::Ready { channels }
        }
    }
}

/// A frame is usable exactly when the resolution has pixels and the buffer
/// holds a whole number of at least 3 bytes per pixel; it is then read with
/// that many channels, at most 4. A misaligned frame reports its pixel
/// count, and a frame with too few bytes per pixel reports how many.
pub proof fn lemma_frame_classification(len: nat, w: nat, h: nat)
    requires
        w * h <= usize::MAX,
    ensures
        (layout_of(len, w, h) is Ready) <==> (w * h > 0 && len % (w * h) == 0 && len / (w * h)
            >= 3),
        (layout_of(len, w, h) is Empty) <==> w * h == 0,
        layout_of(len, w, h) matches FrameLayout::Ready { channels } ==> channels == if len / (w
            * h) > 4 {
            4
        } else {
            len / (w * h)
        },
        layout_of(len, w, h) matches FrameLayout::Misaligned { pixels } ==> pixels == w * h
            && len % (pixels as nat) != 0,
        layout_of(len, w, h) matches FrameLayout::TooFewChannels { channels } ==> channels
            == len / (w * h) && channels < 3,
{
}

/// A ready frame is read with 3 or 4 channels, and never with more bytes
/// per pixel than the buffer holds.
pub proof fn lemma_ready_channels_fit(len: nat, w: nat, h: nat)
    ensures
        layout_of(len, w, h) matches FrameLayout::Ready { channels } ==> MIN_CHANNELS <= channels
            <= MAX_CHANNELS && channels * (w * h) <= len,
{
    let pixels = w * h;
    match layout_of(len, w, h) {
        FrameLayout::Ready { channels } => {
            let c = len / pixels;
            vstd::arithmetic::div_mod::lemma_fundamental_div_mod(len as int, pixels as int);
            assert(pixels * c == len);
            let ch = channels as nat;
            assert(ch <= c);
            assert(ch * pixels <= c * pixels) by (nonlinear_arith)
                requires
                    ch <= c,
            ;
        },
        _ => {},
    }
}

/// Half the surplus of `cam` over `target`, or 0 when there is none.
pub open spec fn centre_offset(cam: nat, target: nat) -> nat {
    if cam > target {
        ((cam - target) / 2) as nat
    } else {
        0
    }
}

/// Offset of a centre crop of `target` pixels out of `cam` pixels: half the
/// surplus, or 0 when the camera image is no larger than the target.
pub fn crop_offset(cam: u32, target: u32) -> (offset: u32)
    ensures
        offset == centre_offset(cam as nat, target as nat),
{
    cam.saturating_sub(target) / 2
}

/// The centred crop keeps `target` pixels within the camera image: the
/// offset plus the target never passes the camera's far edge, and the two
/// margins differ by at most one pixel.
pub proof fn lemma_crop_is_centred(cam: u32, target: u32)
    requires
        cam >= target,
    ensures
        centre_offset(cam as nat, target as nat) + target <= cam,
        (cam - (centre_offset(cam as nat, target as nat) + target)) - centre_offset(
            cam as nat,
            target as nat,
        ) <= 1,
        (cam - (centre_offset(cam as nat, target as nat) + target)) >= centre_offset(
            cam as nat,
            target as nat,
        ),
{
}

} // verus!
