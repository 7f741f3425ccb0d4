use cosmos_raiders::collision::{collide, load_collision_matrices, CollisionMatrices, BLOB_LEN, SPRITE_H, SPRITE_N, SPRITE_W};
use cosmos_raiders::grid::Grid;
use cosmos_raiders::position::Position;

fn ring() -> Grid {
    let mut g = Grid::new(32, 32);
    for i in 0..32 {
        g.set(0, i, true);
        g.set(31, i, true);
        g.set(i, 0, true);
        g.set(i, 31, true);
    }
    g
}

fn full() -> Grid {
    let mut g = Grid::new(32, 32);
    for r in 0..32 {
        for c in 0..32 {
            g.set(r, c, true);
        }
    }
    g
}

fn lone(row: usize, col: usize) -> Grid {
    let mut g = Grid::new(32, 32);
    g.set(row, col, true);
    g
}

fn px(x: i32, y: i32) -> Position {
    Position::new(x * 1000, y * 1000)
}

#[test]
fn far_apart_sprites_never_collide() {
    let m = CollisionMatrices::from_masks(vec![full(), full()]).unwrap();
    assert!(!collide(&m, 0, 1, px(0, 0), px(1000, 1000)));
    assert!(!collide(&m, 1, 0, px(1000, 1000), px(0, 0)));
}

#[test]
fn touching_edges_do_not_collide() {
    let m = CollisionMatrices::from_masks(vec![ring(), ring()]).unwrap();
    assert!(!collide(&m, 0, 1, px(0, 0), px(32, 0)));
    assert!(!collide(&m, 0, 1, px(0, 0), px(0, 32)));
    assert!(!collide(&m, 0, 1, px(0, 0), px(-32, 0)));
}

#[test]
fn one_pixel_overlap_collides() {
    let m = CollisionMatrices::from_masks(vec![ring(), ring()]).unwrap();
    assert!(collide(&m, 0, 1, px(0, 0), px(31, 0)));
    assert!(collide(&m, 0, 1, px(0, 0), px(0, 31)));
    assert!(collide(&m, 0, 1, px(0, 0), px(0, -31)));
}

#[test]
fn overlap_without_common_pixel_misses() {
    // Both masks hold only pixel (5, 5): shifted by 10 px the two pixels
    // fall on different places of the overlap.
    let m = CollisionMatrices::from_masks(vec![lone(5, 5), lone(5, 5)]).unwrap();
    assert!(!collide(&m, 0, 1, px(0, 0), px(10, 0)));
    assert!(collide(&m, 0, 1, px(0, 0), px(0, 0)));
}

#[test]
fn same_mask_same_place_collides() {
    let m = CollisionMatrices::from_masks(vec![ring()]).unwrap();
    assert!(collide(&m, 0, 0, px(7, -3), px(7, -3)));
}

#[test]
fn local_offsets_follow_overlap() {
    // a's pixel (0, 31) and b's pixel (0, 0) meet when b is 31 px to the right.
    let m = CollisionMatrices::from_masks(vec![lone(0, 31), lone(0, 0), lone(0, 1)]).unwrap();
    assert!(collide(&m, 0, 1, px(0, 0), px(31, 0)));
    assert!(!collide(&m, 0, 2, px(0, 0), px(31, 0)));
}

#[test]
fn fractional_overlap_rounds_inwards() {
    // b at 31.5 px: the boxes overlap by half a pixel, which holds no whole pixel.
    let m = CollisionMatrices::from_masks(vec![lone(0, 31), lone(0, 0), lone(0, 1)]).unwrap();
    assert!(!collide(&m, 0, 1, Position::new(0, 0), Position::new(31_500, 0)));
    // b at 30.5 px: the overlap is pixel 15; b's corner 14.5 rounds to 14,
    // so pixel 15 is b's column 1.
    assert!(collide(&m, 0, 2, Position::new(0, 0), Position::new(30_500, 0)));
    assert!(!collide(&m, 0, 1, Position::new(0, 0), Position::new(30_500, 0)));
}

#[test]
fn negative_corner_rounds_towards_zero() {
    // a at -0.5 px has its corner at -16.5 px, taken as -16; b at 30 px
    // overlaps it at pixel 14, which is a's column 30.
    let m = CollisionMatrices::from_masks(vec![lone(0, 30), lone(0, 0), lone(0, 31)]).unwrap();
    assert!(collide(&m, 0, 1, Position::new(-500, 0), px(30, 0)));
    assert!(!collide(&m, 2, 1, Position::new(-500, 0), px(30, 0)));
}

#[test]
fn from_masks_refuses_wrong_size() {
    assert!(CollisionMatrices::from_masks(vec![ring(), Grid::new(32, 31)]).is_none());
    assert!(CollisionMatrices::from_masks(vec![Grid::new(31, 32)]).is_none());
    assert_eq!(CollisionMatrices::from_masks(vec![ring(), ring(), ring()]).unwrap().len(), 3);
}

#[test]
fn load_matrices_from_blob() {
    assert_eq!(BLOB_LEN, 2048);
    let mut blob = vec![0u8; BLOB_LEN];
    // Sprite 0, cell (0, 0): bit 0. Sprite 3, cell (2, 9): bit 3 * 1024 + 73.
    blob[0] = 1;
    let bit = 3 * 1024 + 2 * 32 + 9;
    blob[bit / 8] |= 1 << (bit % 8);
    let m = load_collision_matrices(&blob);
    assert_eq!(m.len(), SPRITE_N);
    assert_eq!((SPRITE_W, SPRITE_H), (32, 32));
    assert!(collide(&m, 0, 0, px(0, 0), px(0, 0)));
    assert!(collide(&m, 3, 3, px(0, 0), px(0, 0)));
    assert!(!collide(&m, 1, 1, px(0, 0), px(0, 0)));
    assert!(!collide(&m, 0, 3, px(0, 0), px(0, 0)));
    // Placed 9 px to the left and 2 px lower, sprite 3 puts its pixel
    // (2, 9) on sprite 0's pixel (0, 0): mask rows and columns grow with y and x.
    assert!(collide(&m, 0, 3, px(0, 0), px(-9, -2)));
}
