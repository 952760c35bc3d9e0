use camera_kelp::burst::{burst_layout, BurstSlot, BURST_LINE, BURST_RINGS};
use camera_kelp::portals::{
    active_holes, default_edge_seeds, drift_sign, edge_of, first_slots, radius_order_key,
    surviving_holes, Edge, HoleTag, MAX_HOLES,
};

fn free(key: i32) -> HoleTag {
    HoleTag { free: true, expired: false, radius_key: key }
}

fn pinned(key: i32) -> HoleTag {
    HoleTag { free: false, expired: false, radius_key: key }
}

#[test]
fn sides_name_edges_modulo_four() {
    assert_eq!(edge_of(0), Edge::Top);
    assert_eq!(edge_of(1), Edge::Bottom);
    assert_eq!(edge_of(2), Edge::Left);
    assert_eq!(edge_of(3), Edge::Right);
    assert_eq!(edge_of(6), Edge::Left);
    assert_eq!(edge_of(255), Edge::Right);
}

#[test]
fn drift_direction_follows_edge() {
    for side in 0..=255u8 {
        let forward = matches!(edge_of(side), Edge::Top | Edge::Left);
        assert_eq!(drift_sign(side), if forward { 1 } else { -1 });
    }
}

#[test]
fn default_seeds_cover_every_edge() {
    assert_eq!(
        default_edge_seeds(),
        vec![(0, 0), (1, 25), (2, 50), (3, 75), (0, 42), (1, 78)]
    );
}

#[test]
fn radius_keys_follow_total_order() {
    let values = [
        f32::NEG_INFINITY,
        -3.5,
        -1.0,
        -0.0,
        0.0,
        1.0e-40,
        0.04,
        0.12,
        0.18,
        f32::INFINITY,
    ];
    for a in values.iter() {
        for b in values.iter() {
            let ka = radius_order_key(a.to_bits());
            let kb = radius_order_key(b.to_bits());
            assert_eq!(ka.cmp(&kb), a.total_cmp(b));
        }
    }
}

#[test]
fn radius_key_exact_values() {
    assert_eq!(radius_order_key(0), 0);
    assert_eq!(radius_order_key(0x3f80_0000), 0x3f80_0000);
    assert_eq!(radius_order_key(0x8000_0000), -1);
    assert_eq!(radius_order_key(0xffff_ffff), i32::MIN);
    assert_eq!(radius_order_key(0x7fff_ffff), i32::MAX);
}

#[test]
fn expired_free_holes_are_dropped() {
    let tags = vec![
        pinned(5),
        HoleTag { free: true, expired: true, radius_key: 9 },
        free(3),
        HoleTag { free: false, expired: true, radius_key: 1 },
    ];
    assert_eq!(surviving_holes(&tags, MAX_HOLES), vec![0, 2, 3]);
}

#[test]
fn smallest_free_holes_are_evicted_first() {
    let mut tags: Vec<HoleTag> = (0..6).map(pinned).collect();
    tags.push(free(30));
    tags.push(free(10));
    tags.push(free(20));
    tags.push(free(40));
    let kept = surviving_holes(&tags, MAX_HOLES);
    assert_eq!(kept, vec![0, 1, 2, 3, 4, 5, 6, 9]);
}

#[test]
fn ties_evict_the_first_hole() {
    let tags = vec![free(7), free(7), free(7)];
    assert_eq!(surviving_holes(&tags, 2), vec![1, 2]);
    assert_eq!(surviving_holes(&tags, 1), vec![2]);
}

#[test]
fn pinned_holes_stay_even_over_the_limit() {
    let tags: Vec<HoleTag> = (0..10).map(pinned).collect();
    let kept = surviving_holes(&tags, MAX_HOLES);
    assert_eq!(kept, (0..10).collect::<Vec<usize>>());
    let mut mixed = tags.clone();
    mixed.push(free(0));
    assert_eq!(surviving_holes(&mixed, MAX_HOLES), (0..10).collect::<Vec<usize>>());
}

#[test]
fn no_holes_no_survivors() {
    assert!(surviving_holes(&Vec::new(), MAX_HOLES).is_empty());
}

#[test]
fn active_hole_count_is_capped() {
    assert_eq!(active_holes(0), 0);
    assert_eq!(active_holes(5), 5);
    assert_eq!(active_holes(8), 8);
    assert_eq!(active_holes(30), 8);
}

#[test]
fn slots_pad_with_fill() {
    let block = first_slots(&vec![1, 2, 3], 0, MAX_HOLES);
    assert_eq!(block, vec![1, 2, 3, 0, 0, 0, 0, 0]);
    let long: Vec<u32> = (1..=10).collect();
    assert_eq!(first_slots(&long, 0, 4), vec![1, 2, 3, 4]);
}

#[test]
fn burst_has_three_rings_and_a_line() {
    let slots = burst_layout();
    assert_eq!(BURST_RINGS, 3);
    assert_eq!(BURST_LINE, 6);
    assert_eq!(slots.len(), 27);
    assert_eq!(slots[0], BurstSlot::Ring { ring: 0, index: 0, count: 5 });
    assert_eq!(slots[4], BurstSlot::Ring { ring: 0, index: 4, count: 5 });
    assert_eq!(slots[5], BurstSlot::Ring { ring: 1, index: 0, count: 7 });
    assert_eq!(slots[12], BurstSlot::Ring { ring: 2, index: 0, count: 9 });
    assert_eq!(slots[20], BurstSlot::Ring { ring: 2, index: 8, count: 9 });
    assert_eq!(slots[21], BurstSlot::Line { index: 0, span: 5 });
    assert_eq!(slots[26], BurstSlot::Line { index: 5, span: 5 });
}
