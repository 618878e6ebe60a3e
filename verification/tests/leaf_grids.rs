use smeagol::node::{
    center, level_4_lower_half_mask, level_4_ne_mask, level_4_nw_mask, level_4_se_mask,
    level_4_sw_mask, level_4_upper_half_mask, shuffle_u16x16, u16x16, Index, Level, Node, NodeId,
};
use std::collections::hash_map::DefaultHasher;
use std::hash::{Hash, Hasher};

fn lanes(v: u16x16) -> [u16; 16] {
    v.0
}

#[test]
fn new_splat_extract() {
    let v = u16x16::new(0, 1, 2, 3, 4, 5, 6, 7, 8, 9, 10, 11, 12, 13, 14, 15);
    for i in 0..16 {
        assert_eq!(v.extract(i), i as u16);
    }
    assert_eq!(lanes(u16x16::splat(0xBEEF)), [0xBEEF; 16]);
}

#[test]
fn replace_then_extract() {
    let v = u16x16::splat(7);
    let w = v.replace(3, 99);
    assert_eq!(w.extract(3), 99);
    for i in 0..16 {
        if i != 3 {
            assert_eq!(w.extract(i), 7);
        }
    }
    assert_eq!(v.extract(3), 7);
}

#[test]
fn count_ones_per_lane() {
    let v = u16x16::new(0, 1, 3, 0xFFFF, 0x8000, 0x00F0, 0xAAAA, 5, 0, 0, 0, 0, 0, 0, 0, 0x7FFF);
    assert_eq!(
        lanes(v.count_ones()),
        [0, 1, 2, 16, 1, 4, 8, 2, 0, 0, 0, 0, 0, 0, 0, 15]
    );
}

#[test]
fn wrapping_sum_wraps() {
    let v = u16x16::new(1, 2, 3, 4, 5, 6, 7, 8, 9, 10, 11, 12, 13, 14, 15, 16);
    assert_eq!(v.wrapping_sum(), 136);
    let big = u16x16::splat(0x8000);
    assert_eq!(big.wrapping_sum(), 0);
    let w = u16x16::splat(5000);
    assert_eq!(w.wrapping_sum(), (16u32 * 5000 % 65536) as u16);
}

#[test]
fn lane_wise_operators() {
    let a = u16x16::splat(0b1100);
    let b = u16x16::splat(0b1010);
    assert_eq!(lanes(a & b), [0b1000; 16]);
    assert_eq!(lanes(a | b), [0b1110; 16]);
    assert_eq!(lanes(a ^ b), [0b0110; 16]);
    assert_eq!(lanes(!a), [!0b1100u16; 16]);
    assert_eq!(lanes(a << 4), [0b1100_0000; 16]);
    assert_eq!(lanes(a >> 2), [0b11; 16]);
    let mut c = a;
    c ^= b;
    assert_eq!(lanes(c), [0b0110; 16]);
}

#[test]
fn not_and_xor_undo() {
    let a = u16x16::new(1, 2, 3, 4, 5, 6, 7, 8, 9, 10, 11, 12, 13, 14, 15, 0xF00F);
    let b = u16x16::new(9, 9, 9, 9, 0, 0, 0, 0, 0xFFFF, 1, 2, 3, 4, 5, 6, 7);
    assert_eq!(!!a, a);
    assert_eq!((a ^ b) ^ b, a);
    assert_eq!(a ^ a, u16x16::splat(0));
    let mut c = a;
    c ^= b;
    c ^= b;
    assert_eq!(c, a);
}

#[test]
fn quadrant_masks_partition() {
    let nw = level_4_nw_mask();
    let ne = level_4_ne_mask();
    let sw = level_4_sw_mask();
    let se = level_4_se_mask();
    assert_eq!(nw | ne | sw | se, u16x16::splat(0xFFFF));
    assert_eq!(nw & ne, u16x16::splat(0));
    assert_eq!(nw & sw, u16x16::splat(0));
    assert_eq!(ne & se, u16x16::splat(0));
    assert_eq!(nw | ne, level_4_upper_half_mask());
    assert_eq!(sw | se, level_4_lower_half_mask());
    assert_eq!(lanes(nw)[0], 0b1111_1111_0000_0000);
    assert_eq!(lanes(nw)[8], 0);
    assert_eq!(lanes(se)[15], 0b0000_0000_1111_1111);
}

#[test]
fn center_takes_middle_of_four_grids() {
    // One live cell near the middle corner of each grid.
    let nw = u16x16::splat(0).replace(15, 0x0001); // row 15, column 15
    let ne = u16x16::splat(0).replace(8, 0x8000); // row 8, column 0
    let sw = u16x16::splat(0).replace(0, 0x0001); // row 0, column 15
    let se = u16x16::splat(0).replace(7, 0x0100); // row 7, column 7
    let c = center(nw, ne, sw, se);
    let mut expected = [0u16; 16];
    expected[7] = 0x0100; // row 7, column 7
    expected[0] = 0x0080; // row 0, column 8
    expected[8] = 0x0100; // row 8, column 7
    expected[15] = 0x0001; // row 15, column 15
    assert_eq!(lanes(c), expected);
}

#[test]
fn center_of_full_and_empty() {
    let full = u16x16::splat(0xFFFF);
    let empty = u16x16::splat(0);
    assert_eq!(center(full, full, full, full), full);
    assert_eq!(center(empty, empty, empty, empty), empty);
    let c = center(full, empty, empty, empty);
    assert_eq!(c, level_4_nw_mask());
}

#[test]
fn shuffle_picks_lanes() {
    let v = u16x16::new(0, 10, 20, 30, 40, 50, 60, 70, 80, 90, 100, 110, 120, 130, 140, 150);
    let idx = [15, 14, 13, 12, 11, 10, 9, 8, 7, 6, 5, 4, 3, 2, 1, 0];
    let r = shuffle_u16x16(v, idx);
    assert_eq!(
        lanes(r),
        [150, 140, 130, 120, 110, 100, 90, 80, 70, 60, 50, 40, 30, 20, 10, 0]
    );
    let r2 = shuffle_u16x16(v, [3; 16]);
    assert_eq!(lanes(r2), [30; 16]);
}

fn id(i: u32) -> NodeId {
    NodeId { index: Index(i) }
}

fn hash_of(n: &Node) -> u64 {
    let mut h = DefaultHasher::new();
    n.hash(&mut h);
    h.finish()
}

#[test]
fn node_equality_ignores_level_and_population() {
    let a = Node::Interior { nw: id(1), ne: id(2), sw: id(3), se: id(4), level: Level(5), population: 7 };
    let b = Node::Interior { nw: id(1), ne: id(2), sw: id(3), se: id(4), level: Level(6), population: 0 };
    let c = Node::Interior { nw: id(1), ne: id(2), sw: id(4), se: id(3), level: Level(5), population: 7 };
    assert_eq!(a, b);
    assert_ne!(a, c);
    assert_eq!(hash_of(&a), hash_of(&b));
    let leaf = Node::Leaf { grid: u16x16::splat(1) };
    let leaf2 = Node::Leaf { grid: u16x16::splat(1) };
    let leaf3 = Node::Leaf { grid: u16x16::splat(2) };
    assert_eq!(leaf, leaf2);
    assert_ne!(leaf, leaf3);
    assert_ne!(leaf, a);
    assert_eq!(hash_of(&leaf), hash_of(&leaf2));
}

#[test]
fn unwrap_leaf_gives_grid() {
    let g = u16x16::new(1, 2, 3, 4, 5, 6, 7, 8, 9, 10, 11, 12, 13, 14, 15, 16);
    assert_eq!(Node::Leaf { grid: g }.unwrap_leaf(), g);
}
