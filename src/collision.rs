use vstd::prelude::*;

use crate::grid::Grid;
use crate::packing::{all_sized, grid_views, unpack_masks, unpack_spec};
use crate::position::{
    ceil_pixels, ceil_to_pixel, floor_pixels, floor_to_pixel, trunc_pixels, trunc_to_pixel, Position,
};

verus! {

/// Width of a sprite, and of its collision matrix, in pixels.
pub const SPRITE_W: usize = 32;

/// Height of a sprite, and of its collision matrix, in pixels.
pub const SPRITE_H: usize = 32;

/// Columns of sprites in the sprite sheet.
pub const SPRITE_COLS: usize = 8;

/// Rows of sprites in the sprite sheet.
pub const SPRITE_ROWS: usize = 2;

/// Number of sprites, and of collision matrices.
pub const SPRITE_N: usize = SPRITE_COLS * SPRITE_ROWS;

/// Length in bytes of the blob that holds all collision matrices.
pub const BLOB_LEN: usize = SPRITE_N * SPRITE_W * SPRITE_H / 8;

/// Half a sprite's width, in thousandths of a pixel.
pub const HALF_W_UNITS: i64 = 16000;

/// Half a sprite's height, in thousandths of a pixel.
pub const HALF_H_UNITS: i64 = 16000;

/// The outline masks of the sprites, one `SPRITE_H` x `SPRITE_W` grid per
/// sprite, indexed by the sprite's number in the sheet. Read-only once built.
#[derive(Debug, PartialEq, Eq)]
pub struct CollisionMatrices {
    masks: Vec<Grid>,
}

impl View for CollisionMatrices {
    type V = Seq<Seq<Seq<bool>>>;

    closed spec fn view(&self) -> Seq<Seq<Seq<bool>>> {
        grid_views(self.masks@)
    }
}

impl CollisionMatrices {
    #[verifier::type_invariant]
    spec fn sized(&self) -> bool {
        all_sized(self.masks@, SPRITE_W as nat, SPRITE_H as nat)
    }

    /// The matrices `masks`, when each of them has `SPRITE_H` rows of
    /// `SPRITE_W` cells.
    pub fn from_masks(masks: Vec<Grid>) -> (r: Option<CollisionMatrices>)
        requires
            forall|k: int| 0 <= k < masks@.len() ==> #[trigger] masks@[k].wf(),
        ensures
            r is Some <==> all_sized(masks@, SPRITE_W as nat, SPRITE_H as nat),
            r matches Some(m) ==> m@ == grid_views(masks@),
    {
        let mut k: usize = 0;
        while k < masks.len()
            invariant
                k <= masks@.len(),
                forall|i: int| 0 <= i < masks@.len() ==> #[trigger] masks@[i].wf(),
                all_sized(masks@.subrange(0, k as int), SPRITE_W as nat, SPRITE_H as nat),
            decreases masks@.len() - k,
        {
            let g = &masks[k];
            if g.width() != SPRITE_W || g.height() != SPRITE_H {
                proof {
                    if all_sized(masks@, SPRITE_W as nat, SPRITE_H as nat) {
                        assert(masks@[k as int].wf());
                    }
                }
                return None;
            }
            assert(masks@.subrange(0, k + 1) =~= masks@.subrange(0, k as int).push(masks@[k as int]));
            k = k + 1;
        }
        assert(masks@.subrange(0, masks@.len() as int) =~= masks@);
        Some(CollisionMatrices { masks })
    }

    /// Number of matrices.
    pub fn len(&self) -> (n: usize)
        ensures
            n == self@.len(),
    {
        self.masks.len()
    }
}

/// Loads the collision matrices from the blob that the sprite preprocessing
/// packed: `SPRITE_N` masks of `SPRITE_H` x `SPRITE_W` cells.
pub fn load_collision_matrices(blob: &Vec<u8>) -> (m: CollisionMatrices)
    requires
        blob@.len() == BLOB_LEN,
    ensures
        m@ == unpack_spec(blob@, SPRITE_N as nat, SPRITE_W as nat, SPRITE_H as nat),
        m@.len() == SPRITE_N,
{
    let masks = unpack_masks(blob, SPRITE_N, SPRITE_W, SPRITE_H);
    CollisionMatrices { masks }
}

/// The larger of two integers.
pub open spec fn max_int(a: int, b: int) -> int {
    if a >= b { a } else { b }
}

/// The smaller of two integers.
pub open spec fn min_int(a: int, b: int) -> int {
    if a <= b { a } else { b }
}

/// Two boxes of half-size `half` centred at `a` and `b` on one axis overlap
/// with some width: touching edges do not count.
pub open spec fn spans_overlap(a: int, b: int, half: int) -> bool {
    a + half > b - half && a - half < b + half
}

/// The sprite boxes centred at `a` and `b` overlap on both axes.
pub open spec fn boxes_overlap(a: Position, b: Position) -> bool {
    spans_overlap(a.x as int, b.x as int, HALF_W_UNITS as int)
        && spans_overlap(a.y as int, b.y as int, HALF_H_UNITS as int)
}

/// First whole pixel of the overlap of the two boxes on one axis (rounded up).
pub open spec fn span_start(a: int, b: int, half: int) -> int {
    ceil_pixels(max_int(a - half, b - half))
}

/// End of the overlap on one axis, in whole pixels (rounded down).
pub open spec fn span_end(a: int, b: int, half: int) -> int {
    floor_pixels(min_int(a + half, b + half))
}

/// Number of whole pixels of the overlap on one axis.
pub open spec fn span_len(a: int, b: int, half: int) -> int {
    max_int(span_end(a, b, half) - span_start(a, b, half), 0)
}

/// Where the overlap starts in the mask of the sprite centred at `own`: the
/// start of the overlap less the sprite's box corner (rounded towards zero),
/// at least zero.
pub open spec fn local_start(own: int, other: int, half: int) -> int {
    max_int(span_start(own, other, half) - trunc_pixels(own - half), 0)
}

/// Both masks are on at offset (`y`, `x`) of the overlap.
pub open spec fn mask_hit(ma: Seq<Seq<bool>>, mb: Seq<Seq<bool>>, a: Position, b: Position, y: int, x: int) -> bool {
    let hw = HALF_W_UNITS as int;
    let hh = HALF_H_UNITS as int;
    &&& ma[local_start(a.y as int, b.y as int, hh) + y][local_start(a.x as int, b.x as int, hw) + x]
    &&& mb[local_start(b.y as int, a.y as int, hh) + y][local_start(b.x as int, a.x as int, hw) + x]
}

/// The sprites with masks `ma` and `mb` centred at `a` and `b` collide: their
/// boxes overlap, and some whole pixel of the overlap is on in both masks.
pub open spec fn collides(ma: Seq<Seq<bool>>, mb: Seq<Seq<bool>>, a: Position, b: Position) -> bool {
    &&& boxes_overlap(a, b)
    &&& exists|y: int, x: int|
        0 <= y < span_len(a.y as int, b.y as int, HALF_H_UNITS as int)
            && 0 <= x < span_len(a.x as int, b.x as int, HALF_W_UNITS as int)
            && #[trigger] mask_hit(ma, mb, a, b, y, x)
}

/// Along one axis of a mask of `2 * half` units, the overlap of two
/// overlapping boxes starts at a cell of the mask and ends within it.
proof fn lemma_span_in_mask(own: int, other: int, half: int)
    requires
        half == 16000,
        spans_overlap(own, other, half),
    ensures
        span_start(own, other, half) - trunc_pixels(own - half) >= 0,
        span_len(own, other, half) > 0 ==> local_start(own, other, half) + span_len(own, other, half) <= 32,
        span_start(own, other, half) == span_start(other, own, half),
        span_len(own, other, half) == span_len(other, own, half),
{
    let corner = own - half;
    assert(floor_pixels(corner + 32000) == floor_pixels(corner) + 32);
    assert(trunc_pixels(corner) >= floor_pixels(corner));
    assert(trunc_pixels(corner) <= ceil_pixels(corner));
    assert(ceil_pixels(max_int(corner, other - half)) >= ceil_pixels(corner));
    assert(floor_pixels(min_int(own + half, other + half)) <= floor_pixels(corner + 32000));
}

/// Tests two sprites for a collision: sprite `a` centred at `a_pos` against
/// sprite `b` centred at `b_pos`. Boxes that do not overlap are rejected
/// without reading the masks; otherwise each whole pixel of the overlap is
/// looked up in both masks, and the first pixel on in both ends the search.
pub fn collide(matrices: &CollisionMatrices, a: usize, b: usize, a_pos: Position, b_pos: Position) -> (hit: bool)
    requires
        a < matrices@.len(),
        b < matrices@.len(),
    ensures
        hit == collides(matrices@[a as int], matrices@[b as int], a_pos, b_pos),
{
    let a_min_x = a_pos.x as i64 - HALF_W_UNITS;
    let a_max_x = a_pos.x as i64 + HALF_W_UNITS;
    let a_min_y = a_pos.y as i64 - HALF_H_UNITS;
    let a_max_y = a_pos.y as i64 + HALF_H_UNITS;
    let b_min_x = b_pos.x as i64 - HALF_W_UNITS;
    let b_max_x = b_pos.x as i64 + HALF_W_UNITS;
    let b_min_y = b_pos.y as i64 - HALF_H_UNITS;
    let b_max_y = b_pos.y as i64 + HALF_H_UNITS;

    if a_max_x <= b_min_x || a_min_x >= b_max_x || a_max_y <= b_min_y || a_min_y >= b_max_y {
        return false;
    }

    let start_x = ceil_to_pixel(if a_min_x >= b_min_x { a_min_x } else { b_min_x });
    let start_y = ceil_to_pixel(if a_min_y >= b_min_y { a_min_y } else { b_min_y });
    let end_x = floor_to_pixel(if a_max_x <= b_max_x { a_max_x } else { b_max_x });
    let end_y = floor_to_pixel(if a_max_y <= b_max_y { a_max_y } else { b_max_y });

    let span_w = if end_x > start_x { end_x - start_x } else { 0 };
    let span_h = if end_y > start_y { end_y - start_y } else { 0 };

    let ghost hw = HALF_W_UNITS as int;
    let ghost hh = HALF_H_UNITS as int;
    proof {
        lemma_span_in_mask(a_pos.x as int, b_pos.x as int, hw);
        lemma_span_in_mask(b_pos.x as int, a_pos.x as int, hw);
        lemma_span_in_mask(a_pos.y as int, b_pos.y as int, hh);
        lemma_span_in_mask(b_pos.y as int, a_pos.y as int, hh);
    }
    let a_col = start_x - trunc_to_pixel(a_min_x);
    let a_row = start_y - trunc_to_pixel(a_min_y);
    let b_col = start_x - trunc_to_pixel(b_min_x);
    let b_row = start_y - trunc_to_pixel(b_min_y);

    if span_w == 0 || span_h == 0 {
        return false;
    }
    let a_col = a_col as usize;
    let a_row = a_row as usize;
    let b_col = b_col as usize;
    let b_row = b_row as usize;
    let span_w = span_w as usize;
    let span_h = span_h as usize;

    proof {
        use_type_invariant(matrices);
        assert(matrices.masks@[a as int].wf());
        assert(matrices.masks@[b as int].wf());
    }
    let ma = &matrices.masks[a];
    let mb = &matrices.masks[b];
    let ghost va = matrices@[a as int];
    let ghost vb = matrices@[b as int];

    let mut y: usize = 0;
    while y < span_h
        invariant
            ma.wf() && ma.width() == SPRITE_W && ma@.len() == SPRITE_H,
            mb.wf() && mb.width() == SPRITE_W && mb@.len() == SPRITE_H,
            va == ma@,
            vb == mb@,
            va == matrices@[a as int],
            vb == matrices@[b as int],
            hw == HALF_W_UNITS,
            hh == HALF_H_UNITS,
            boxes_overlap(a_pos, b_pos),
            span_h == span_len(a_pos.y as int, b_pos.y as int, hh),
            span_w == span_len(a_pos.x as int, b_pos.x as int, hw),
            a_row == local_start(a_pos.y as int, b_pos.y as int, hh),
            a_col == local_start(a_pos.x as int, b_pos.x as int, hw),
            b_row == local_start(b_pos.y as int, a_pos.y as int, hh),
            b_col == local_start(b_pos.x as int, a_pos.x as int, hw),
            a_row + span_h <= SPRITE_H,
            b_row + span_h <= SPRITE_H,
            a_col + span_w <= SPRITE_W,
            b_col + span_w <= SPRITE_W,
            y <= span_h,
            forall|yy: int, xx: int| 0 <= yy < y && 0 <= xx < span_w ==> !#[trigger] mask_hit(va, vb, a_pos, b_pos, yy, xx),
        decreases span_h - y,
    {
        let mut x: usize = 0;
        while x < span_w
            invariant
                ma.wf() && ma.width() == SPRITE_W && ma@.len() == SPRITE_H,
                mb.wf() && mb.width() == SPRITE_W && mb@.len() == SPRITE_H,
                va == ma@,
                vb == mb@,
                va == matrices@[a as int],
                vb == matrices@[b as int],
                hw == HALF_W_UNITS,
                hh == HALF_H_UNITS,
                boxes_overlap(a_pos, b_pos),
                span_h == span_len(a_pos.y as int, b_pos.y as int, hh),
                span_w == span_len(a_pos.x as int, b_pos.x as int, hw),
                a_row == local_start(a_pos.y as int, b_pos.y as int, hh),
                a_col == local_start(a_pos.x as int, b_pos.x as int, hw),
                b_row == local_start(b_pos.y as int, a_pos.y as int, hh),
                b_col == local_start(b_pos.x as int, a_pos.x as int, hw),
                a_row + span_h <= SPRITE_H,
                b_row + span_h <= SPRITE_H,
                a_col + span_w <= SPRITE_W,
                b_col + span_w <= SPRITE_W,
                y < span_h,
                x <= span_w,
                forall|yy: int, xx: int| 0 <= yy < y && 0 <= xx < span_w ==> !#[trigger] mask_hit(va, vb, a_pos, b_pos, yy, xx),
                forall|xx: int| 0 <= xx < x ==> !#[trigger] mask_hit(va, vb, a_pos, b_pos, y as int, xx),
            decreases span_w - x,
        {
            let on_a = ma.get(a_row + y, a_col + x);
            let on_b = mb.get(b_row + y, b_col + x);
            assert((on_a && on_b) == mask_hit(va, vb, a_pos, b_pos, y as int, x as int));
            if on_a && on_b {
                return true;
            }
            x = x + 1;
        }
        y = y + 1;
    }
    false
}

/// Sprites whose boxes do not overlap never collide, whatever their masks:
/// the test decides on the boxes alone.
pub proof fn lemma_separate_boxes_never_collide(ma: Seq<Seq<bool>>, mb: Seq<Seq<bool>>, a: Position, b: Position)
    requires
        !boxes_overlap(a, b),
    ensures
        !collides(ma, mb, a, b),
{
}

} // verus!
