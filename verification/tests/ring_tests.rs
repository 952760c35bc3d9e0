use camera_kelp::ring::AudioRingBuffer;
use camera_kelp::spectrum::{band_range, SPECTRUM_BANDS};

#[test]
fn new_ring_is_filled_and_sized() {
    let ring = AudioRingBuffer::new(8, 0i32);
    assert_eq!(ring.len(), 8);
    let mut out = vec![7i32; 8];
    ring.get_samples(&mut out);
    assert_eq!(out, vec![0; 8]);
}

#[test]
fn read_returns_latest_written_samples() {
    let mut ring = AudioRingBuffer::new(8, 0i32);
    ring.write(&[1, 2, 3, 4, 5]);
    let mut out = vec![0i32; 3];
    ring.get_samples(&mut out);
    assert_eq!(out, vec![3, 4, 5]);
}

#[test]
fn writes_wrap_round_the_ring() {
    let mut ring = AudioRingBuffer::new(4, 0i32);
    ring.write(&[1, 2, 3]);
    ring.write(&[4, 5, 6]);
    let mut out = vec![0i32; 4];
    ring.get_samples(&mut out);
    assert_eq!(out, vec![3, 4, 5, 6]);
}

#[test]
fn batch_longer_than_ring_keeps_its_tail() {
    let mut ring = AudioRingBuffer::new(4, 0i32);
    ring.write(&[1, 2, 3, 4, 5, 6, 7, 8, 9, 10]);
    let mut out = vec![0i32; 4];
    ring.get_samples(&mut out);
    assert_eq!(out, vec![7, 8, 9, 10]);
}

#[test]
fn float_samples_as_in_capture() {
    let mut ring = AudioRingBuffer::new(8192, 0.0f32);
    let burst: Vec<f32> = (0..3000).map(|i| i as f32 * 0.5).collect();
    ring.write(&burst);
    let mut out = vec![0.0f32; 2048];
    ring.get_samples(&mut out);
    assert_eq!(out[0], (3000 - 2048) as f32 * 0.5);
    assert_eq!(out[2047], 2999.0 * 0.5);
}

#[test]
fn single_slot_ring_holds_last_sample() {
    let mut ring = AudioRingBuffer::new(1, 0u8);
    ring.write(&[9, 8, 7]);
    let mut out = vec![0u8; 1];
    ring.get_samples(&mut out);
    assert_eq!(out, vec![7]);
}

#[test]
fn non_power_of_two_ring_masks_positions() {
    // Three slots give the mask 0b10: positions 0 and 1 share slot 0.
    let mut ring = AudioRingBuffer::new(3, 0i32);
    ring.write(&[1, 2, 3]);
    let mut out = vec![0i32; 3];
    ring.get_samples(&mut out);
    // Cursor is (0 + 3) & 2 == 2; reads slots of 2, 3, 4: 2, 2, 0.
    assert_eq!(out, vec![3, 3, 2]);
}

#[test]
fn empty_read_and_empty_write() {
    let mut ring = AudioRingBuffer::new(4, 5i32);
    ring.write(&[]);
    let mut out: Vec<i32> = Vec::new();
    ring.get_samples(&mut out);
    assert!(out.is_empty());
    let mut all = vec![0i32; 4];
    ring.get_samples(&mut all);
    assert_eq!(all, vec![5, 5, 5, 5]);
}

#[test]
fn bands_of_a_frame_window() {
    assert_eq!(SPECTRUM_BANDS, 3);
    assert_eq!(band_range(2048, 0), (0, 682));
    assert_eq!(band_range(2048, 1), (682, 1364));
    assert_eq!(band_range(2048, 2), (1364, 2046));
}

#[test]
fn bands_tile_exactly_divisible_window() {
    assert_eq!(band_range(9, 0), (0, 3));
    assert_eq!(band_range(9, 1), (3, 6));
    assert_eq!(band_range(9, 2), (6, 9));
}

#[test]
fn bands_of_tiny_windows_are_empty() {
    for len in 0..3 {
        for band in 0..3 {
            assert_eq!(band_range(len, band), (0, 0));
        }
    }
}

#[test]
fn one_slot_ring_serves_a_long_read() {
    // The ring used when audio capture is built out: one slot, read 2048 wide.
    let ring = AudioRingBuffer::new(1, 0.0f32);
    let mut out = vec![1.0f32; 2048];
    ring.get_samples(&mut out);
    assert!(out.iter().all(|&s| s == 0.0));
}

#[test]
fn read_longer_than_ring_goes_round_again() {
    let mut ring = AudioRingBuffer::new(4, 0i32);
    ring.write(&[1, 2, 3, 4, 5, 6]);
    let mut out = vec![0i32; 10];
    ring.get_samples(&mut out);
    assert_eq!(out, vec![5, 6, 3, 4, 5, 6, 3, 4, 5, 6]);
}

#[test]
fn read_spans_several_write_batches() {
    let mut ring = AudioRingBuffer::new(8192, 0u32);
    let mut next = 0u32;
    for _ in 0..7 {
        let batch: Vec<u32> = (next..next + 512).collect();
        next += 512;
        ring.write(&batch);
    }
    let mut out = vec![0u32; 2048];
    ring.get_samples(&mut out);
    let expected: Vec<u32> = (next - 2048..next).collect();
    assert_eq!(out, expected);
}

#[test]
fn batches_across_the_wrap_point() {
    let mut ring = AudioRingBuffer::new(8, 0i32);
    ring.write(&[1, 2, 3, 4, 5, 6]);
    ring.write(&[7, 8, 9, 10, 11]);
    assert_eq!(ring.write_position(), 3);
    let mut out = vec![0i32; 8];
    ring.get_samples(&mut out);
    assert_eq!(out, vec![4, 5, 6, 7, 8, 9, 10, 11]);
}
