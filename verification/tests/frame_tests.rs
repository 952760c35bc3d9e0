use camera_kelp::camera::{crop_offset, frame_layout, FrameLayout};
use camera_kelp::gpu::{thread_groups, unpack_brightest, BrightestActivation};

#[test]
fn rgb_frame_is_ready() {
    assert_eq!(frame_layout(1920 * 1080 * 3, 1920, 1080), FrameLayout::Ready { channels: 3 });
}

#[test]
fn rgba_frame_is_ready() {
    assert_eq!(frame_layout(640 * 480 * 4, 640, 480), FrameLayout::Ready { channels: 4 });
}

#[test]
fn wide_pixels_are_read_as_four_channels() {
    assert_eq!(frame_layout(10 * 10 * 6, 10, 10), FrameLayout::Ready { channels: 4 });
}

#[test]
fn empty_resolution() {
    assert_eq!(frame_layout(100, 0, 720), FrameLayout::Empty);
    assert_eq!(frame_layout(0, 1280, 0), FrameLayout::Empty);
}

#[test]
fn misaligned_buffer() {
    assert_eq!(frame_layout(1001, 10, 10), FrameLayout::Misaligned { pixels: 100 });
}

#[test]
fn too_few_channels() {
    assert_eq!(frame_layout(200, 10, 10), FrameLayout::TooFewChannels { channels: 2 });
    assert_eq!(frame_layout(0, 10, 10), FrameLayout::TooFewChannels { channels: 0 });
}

#[test]
fn crop_centres_larger_camera() {
    assert_eq!(crop_offset(1920, 1280), 320);
    assert_eq!(crop_offset(1080, 720), 180);
    assert_eq!(crop_offset(1281, 1280), 0);
    assert_eq!(crop_offset(1283, 1280), 1);
}

#[test]
fn crop_of_smaller_camera_is_zero() {
    assert_eq!(crop_offset(640, 1280), 0);
    assert_eq!(crop_offset(1280, 1280), 0);
}

#[test]
fn thread_groups_round_up() {
    assert_eq!(thread_groups(1280, 16), 80);
    assert_eq!(thread_groups(720, 16), 45);
    assert_eq!(thread_groups(17, 16), 2);
    assert_eq!(thread_groups(0, 16), 0);
    assert_eq!(thread_groups(1, 16), 1);
}

#[test]
fn brightest_word_unpacks() {
    let packed: u32 = (1023 << 22) | (1279 << 11) | 719;
    assert_eq!(
        unpack_brightest(packed),
        BrightestActivation { level: 1023, x: 1279, y: 719 }
    );
    assert_eq!(unpack_brightest(0), BrightestActivation { level: 0, x: 0, y: 0 });
    let a = unpack_brightest(u32::MAX);
    assert_eq!((a.level, a.x, a.y), (1023, 2047, 2047));
    assert_eq!((a.level << 22) | (a.x << 11) | a.y, u32::MAX);
}
