use cosmos_raiders::grid::Grid;
use cosmos_raiders::packing::{pack_masks, unpack_masks};

fn pattern_grid(width: usize, height: usize, seed: u64) -> Grid {
    let mut g = Grid::new(width, height);
    let mut s = seed;
    for r in 0..height {
        for c in 0..width {
            s = s.wrapping_mul(6364136223846793005).wrapping_add(1442695040888963407);
            g.set(r, c, (s >> 33) & 1 == 1);
        }
    }
    g
}

#[test]
fn pack_then_unpack_round_trip() {
    for &(w, h, n) in &[(5usize, 3usize, 3usize), (32, 32, 16), (1, 1, 9), (7, 2, 1), (3, 3, 0)] {
        let masks: Vec<Grid> = (0..n).map(|k| pattern_grid(w, h, 17 + k as u64)).collect();
        let blob = pack_masks(&masks, w, h);
        assert_eq!(blob.len(), (n * w * h + 7) / 8);
        let back = unpack_masks(&blob, n, w, h);
        assert_eq!(back, masks);
    }
}

#[test]
fn pack_layout_is_row_major_lsb_first() {
    // Two 4x2 masks: bit index = k * 8 + r * 4 + c.
    let mut a = Grid::new(4, 2);
    a.set(0, 0, true); // bit 0
    a.set(1, 1, true); // bit 5
    let mut b = Grid::new(4, 2);
    b.set(0, 3, true); // bit 11
    b.set(1, 3, true); // bit 15
    let blob = pack_masks(&vec![a, b], 4, 2);
    assert_eq!(blob, vec![0b0010_0001, 0b1000_1000]);
}

#[test]
fn pack_pads_last_byte_with_zeros() {
    let mut g = Grid::new(3, 3);
    for r in 0..3 {
        for c in 0..3 {
            g.set(r, c, true);
        }
    }
    let blob = pack_masks(&vec![g], 3, 3);
    assert_eq!(blob, vec![0xff, 0x01]);
}

#[test]
fn unpack_reads_known_bits() {
    let blob = vec![0b0000_0100u8, 0b1000_0000];
    let masks = unpack_masks(&blob, 1, 4, 4);
    assert_eq!(masks.len(), 1);
    let m = &masks[0];
    for r in 0..4 {
        for c in 0..4 {
            let i = r * 4 + c;
            assert_eq!(m.get(r, c), i == 2 || i == 15);
        }
    }
}
