use vstd::arithmetic::div_mod::lemma_fundamental_div_mod_converse;
use vstd::prelude::*;

use crate::grid::{rows_have_width, Grid};

verus! {

/// Bit `t` of byte `b`, counting from the least significant bit.
pub open spec fn byte_bit(b: u8, t: u8) -> bool {
    (b >> t) & 1u8 == 1u8
}

/// Bit `i` of a packed blob: bit `i % 8` of byte `i / 8`.
pub open spec fn blob_bit(blob: Seq<u8>, i: int) -> bool {
    byte_bit(blob[i / 8], (i % 8) as u8)
}

/// Number of bytes that hold `bits` bits.
pub open spec fn packed_len(bits: nat) -> nat {
    (bits + 7) / 8
}

/// Place of cell (`r`, `c`) of mask `k` in the bit stream of masks of
/// `width` x `height` cells: masks one after another, each row by row.
pub open spec fn bit_index(width: nat, height: nat, k: int, r: int, c: int) -> int {
    k * (width * height) + r * width + c
}

/// The bit stream of `masks`, each `height` rows of `width` cells: bit `i` is
/// the cell that `bit_index` places at `i`.
pub open spec fn flatten_masks(masks: Seq<Seq<Seq<bool>>>, width: nat, height: nat) -> Seq<bool> {
    Seq::new(
        masks.len() * (width * height),
        |i: int| masks[i / (width * height) as int][(i % (width * height) as int) / width as int][(i % (width * height) as int) % width as int],
    )
}

/// The byte made of the `n` bits of `bits` from `start` on, the first of them
/// in the least significant place; a bit past the end of `bits` is zero.
pub open spec fn chunk_byte(bits: Seq<bool>, start: int, n: nat) -> u8
    decreases n,
{
    if n == 0 {
        0u8
    } else {
        let t = (n - 1) as nat;
        let here: u8 = if start + t < bits.len() && bits[start + t] { 1u8 << (t as u8) } else { 0u8 };
        chunk_byte(bits, start, t) | here
    }
}

/// `bits` packed eight to a byte, least significant bit first, the last byte
/// padded with zeros.
pub open spec fn pack_bits_spec(bits: Seq<bool>) -> Seq<u8> {
    Seq::new(packed_len(bits.len()), |j: int| chunk_byte(bits, 8 * j, 8))
}

/// The blob that holds `masks`, each of `width` x `height` cells.
pub open spec fn pack_spec(masks: Seq<Seq<Seq<bool>>>, width: nat, height: nat) -> Seq<u8> {
    pack_bits_spec(flatten_masks(masks, width, height))
}

/// The `count` masks of `width` x `height` cells that `blob` holds.
pub open spec fn unpack_spec(blob: Seq<u8>, count: nat, width: nat, height: nat) -> Seq<Seq<Seq<bool>>> {
    Seq::new(
        count,
        |k: int| Seq::new(height, |r: int| Seq::new(width, |c: int| blob_bit(blob, bit_index(width, height, k, r, c)))),
    )
}

/// The views of a sequence of grids.
pub open spec fn grid_views(grids: Seq<Grid>) -> Seq<Seq<Seq<bool>>> {
    grids.map_values(|g: Grid| g@)
}

/// Every grid of `grids` is well formed, with `height` rows of `width` cells.
pub open spec fn all_sized(grids: Seq<Grid>, width: nat, height: nat) -> bool {
    forall|k: int|
        0 <= k < grids.len() ==> {
            &&& #[trigger] grids[k].wf()
            &&& grids[k].width() == width
            &&& grids[k]@.len() == height
        }
}

/// Every mask of `masks` has `height` rows of `width` cells.
pub open spec fn masks_sized(masks: Seq<Seq<Seq<bool>>>, width: nat, height: nat) -> bool {
    forall|k: int| 0 <= k < masks.len() ==> #[trigger] masks[k].len() == height && rows_have_width(masks[k], width)
}

proof fn lemma_or_bit(x: u8, y: u8, t: u8)
    requires
        t < 8,
    ensures
        byte_bit(x | y, t) == (byte_bit(x, t) || byte_bit(y, t)),
{
    assert(((x | y) >> t) & 1u8 == 1u8 <==> ((x >> t) & 1u8 == 1u8 || (y >> t) & 1u8 == 1u8)) by (bit_vector)
        requires
            t < 8,
    ;
}

proof fn lemma_single_bit(s: u8, t: u8)
    requires
        s < 8,
        t < 8,
    ensures
        byte_bit(1u8 << s, t) == (s == t),
        !byte_bit(0u8, t),
{
    assert((((1u8 << s) >> t) & 1u8 == 1u8) == (s == t)) by (bit_vector)
        requires
            s < 8,
            t < 8,
    ;
    assert(((0u8 >> t) & 1u8 == 1u8) == false) by (bit_vector);
}

/// Bit `t` of `chunk_byte(bits, start, n)` is the bit of `bits` at `start + t`
/// when `t < n`, and zero otherwise.
proof fn lemma_chunk_byte_bit(bits: Seq<bool>, start: int, n: nat, t: u8)
    requires
        n <= 8,
        t < 8,
        0 <= start,
    ensures
        byte_bit(chunk_byte(bits, start, n), t) == (t < n && start + t < bits.len() && bits[start + t]),
    decreases n,
{
    if n == 0 {
        lemma_single_bit(0, t);
    } else {
        let s = (n - 1) as nat;
        lemma_chunk_byte_bit(bits, start, s, t);
        let here: u8 = if start + s < bits.len() && bits[start + s] { 1u8 << (s as u8) } else { 0u8 };
        lemma_or_bit(chunk_byte(bits, start, s), here, t);
        lemma_single_bit(s as u8, t);
    }
}

/// Each bit of a packed stream reads back as it was packed.
proof fn lemma_pack_bits_bit(bits: Seq<bool>, i: int)
    requires
        0 <= i < bits.len(),
    ensures
        blob_bit(pack_bits_spec(bits), i) == bits[i],
{
    let j = i / 8;
    let t = i % 8;
    assert(8 * j + t == i);
    assert(j < packed_len(bits.len()));
    lemma_chunk_byte_bit(bits, 8 * j, 8, t as u8);
}

/// `bit_index` and the division in `flatten_masks` agree: the bit at
/// `bit_index(width, height, k, r, c)` is cell (`r`, `c`) of mask `k`.
proof fn lemma_bit_index_decode(width: nat, height: nat, k: int, r: int, c: int)
    requires
        0 <= k,
        0 <= r < height,
        0 <= c < width,
    ensures
        ({
            let i = bit_index(width, height, k, r, c);
            let wh = (width * height) as int;
            &&& i / wh == k
            &&& (i % wh) / (width as int) == r
            &&& (i % wh) % (width as int) == c
        }),
{
    let wh = (width * height) as int;
    let rest = r * width + c;
    assert(0 <= rest < wh) by (nonlinear_arith)
        requires
            0 <= r < height,
            0 <= c < width,
            rest == r * width + c,
            wh == width * height,
    ;
    assert(bit_index(width, height, k, r, c) == k * wh + rest);
    lemma_fundamental_div_mod_converse(k * wh + rest, wh, k, rest);
    lemma_fundamental_div_mod_converse(rest, width as int, r, c);
}

/// Packing masks and unpacking the blob gives back the same masks, cell for
/// cell, for masks of any size and any number of them.
pub proof fn lemma_pack_unpack_round_trip(masks: Seq<Seq<Seq<bool>>>, width: nat, height: nat)
    requires
        masks_sized(masks, width, height),
    ensures
        unpack_spec(pack_spec(masks, width, height), masks.len(), width, height) == masks,
{
    let bits = flatten_masks(masks, width, height);
    let blob = pack_spec(masks, width, height);
    let out = unpack_spec(blob, masks.len(), width, height);
    assert forall|k: int| 0 <= k < masks.len() implies #[trigger] out[k] =~= masks[k] by {
        assert(masks[k].len() == height && rows_have_width(masks[k], width));
        assert forall|r: int| 0 <= r < height implies #[trigger] out[k][r] =~= masks[k][r] by {
            assert(masks[k][r].len() == width);
            assert forall|c: int| 0 <= c < width implies #[trigger] out[k][r][c] == masks[k][r][c] by {
                let i = bit_index(width, height, k, r, c);
                lemma_bit_index_decode(width, height, k, r, c);
                assert(i < masks.len() * (width * height)) by (nonlinear_arith)
                    requires
                        0 <= k < masks.len(),
                        0 <= r < height,
                        0 <= c < width,
                        i == k * (width * height) + r * width + c,
                ;
                assert(0 <= i) by (nonlinear_arith)
                    requires
                        0 <= k,
                        0 <= r,
                        0 <= c,
                        i == k * (width * height) + r * width + c,
                ;
                lemma_pack_bits_bit(bits, i);
            }
        }
    }
    assert(out =~= masks);
}

/// The bits of `masks` one after another, each mask row by row.
fn flatten_grids(masks: &Vec<Grid>, width: usize, height: usize) -> (bits: Vec<bool>)
    requires
        all_sized(masks@, width as nat, height as nat),
        masks@.len() * (width * height) <= usize::MAX,
    ensures
        bits@ == flatten_masks(grid_views(masks@), width as nat, height as nat),
{
    let ghost views = grid_views(masks@);
    let ghost w = width as nat;
    let ghost h = height as nat;
    let ghost wh = (width * height) as int;
    let ghost flat = flatten_masks(views, w, h);
    let mut bits: Vec<bool> = Vec::new();
    let mut k: usize = 0;
    while k < masks.len()
        invariant
            all_sized(masks@, w, h),
            views == grid_views(masks@),
            flat == flatten_masks(views, w, h),
            w == width,
            h == height,
            wh == w * h,
            flat.len() == masks@.len() * wh,
            flat.len() <= usize::MAX,
            k <= masks@.len(),
            bits@.len() == k * wh,
            forall|i: int| 0 <= i < bits@.len() ==> #[trigger] bits@[i] == flat[i],
        decreases masks@.len() - k,
    {
        assert(masks@[k as int].wf());
        let g = &masks[k];
        assert(k * wh + wh <= flat.len()) by (nonlinear_arith)
            requires
                k < masks@.len(),
                flat.len() == masks@.len() * wh,
                0 <= wh,
        ;
        let mut r: usize = 0;
        while r < height
            invariant
                views == grid_views(masks@),
                flat == flatten_masks(views, w, h),
                w == width,
                h == height,
                wh == w * h,
                k < masks@.len(),
                *g == masks@[k as int],
                g.wf() && g.width() == width && g@.len() == height,
                k * wh + wh <= flat.len(),
                flat.len() <= usize::MAX,
                r <= height,
                bits@.len() == k * wh + r * w,
                forall|i: int| 0 <= i < bits@.len() ==> #[trigger] bits@[i] == flat[i],
            decreases height - r,
        {
            proof {
                assert(r * w + w <= wh) by (nonlinear_arith)
                    requires
                        r < h,
                        wh == w * h,
                ;
            }
            let mut c: usize = 0;
            while c < width
                invariant
                    views == grid_views(masks@),
                    flat == flatten_masks(views, w, h),
                    w == width,
                    h == height,
                    wh == w * h,
                    k < masks@.len(),
                    *g == masks@[k as int],
                    g.wf() && g.width() == width && g@.len() == height,
                    k * wh + wh <= flat.len(),
                    r * w + w <= wh,
                    flat.len() <= usize::MAX,
                    r < height,
                    c <= width,
                    bits@.len() == k * wh + r * w + c,
                    forall|i: int| 0 <= i < bits@.len() ==> #[trigger] bits@[i] == flat[i],
                decreases width - c,
            {
                proof {
                    lemma_bit_index_decode(w, h, k as int, r as int, c as int);
                    assert(0 <= k * wh) by (nonlinear_arith)
                        requires
                            0 <= k,
                            0 <= wh,
                    ;
                }
                let b = g.get(r, c);
                bits.push(b);
                c = c + 1;
            }
            proof {
                assert((r + 1) * w == r * w + w) by (nonlinear_arith);
            }
            r = r + 1;
        }
        proof {
            assert(height * w == wh) by (nonlinear_arith)
                requires
                    wh == w * h,
                    h == height,
            ;
            assert((k + 1) * wh == k * wh + wh) by (nonlinear_arith);
        }
        k = k + 1;
    }
    assert(bits@ =~= flat);
    bits
}

/// Packs `bits` eight to a byte, least significant bit first; the last byte is
/// padded with zeros.
fn pack_bits(bits: &Vec<bool>) -> (blob: Vec<u8>)
    ensures
        blob@ == pack_bits_spec(bits@),
{
    let len = bits.len();
    let count: usize = if len % 8 == 0 { len / 8 } else { len / 8 + 1 };
    assert(count == packed_len(len as nat));
    let mut blob: Vec<u8> = Vec::new();
    let mut j: usize = 0;
    while j < count
        invariant
            len == bits@.len(),
            count == packed_len(len as nat),
            j <= count,
            blob@.len() == j,
            forall|i: int| 0 <= i < j ==> #[trigger] blob@[i] == chunk_byte(bits@, 8 * i, 8),
        decreases count - j,
    {
        let start: usize = 8 * j;
        let mut byte: u8 = 0;
        let mut t: u8 = 0;
        while t < 8
            invariant
                len == bits@.len(),
                start == 8 * j,
                start < len,
                t <= 8,
                byte == chunk_byte(bits@, start as int, t as nat),
            decreases 8 - t,
        {
            let ghost prev = byte;
            if (t as usize) < len - start && bits[start + t as usize] {
                byte = byte | (1u8 << t);
            }
            proof {
                assert(prev | 0u8 == prev) by (bit_vector);
                assert(byte == chunk_byte(bits@, start as int, (t + 1) as nat));
            }
            t = t + 1;
        }
        blob.push(byte);
        j = j + 1;
    }
    assert(blob@ =~= pack_bits_spec(bits@));
    blob
}

/// Packs `masks`, each of `height` rows of `width` cells, into a blob: the
/// cell (`r`, `c`) of mask `k` is bit `k * width * height + r * width + c`,
/// which is bit `i % 8` (least significant first) of byte `i / 8`.
pub fn pack_masks(masks: &Vec<Grid>, width: usize, height: usize) -> (blob: Vec<u8>)
    requires
        all_sized(masks@, width as nat, height as nat),
        masks@.len() * (width * height) <= usize::MAX,
    ensures
        blob@ == pack_spec(grid_views(masks@), width as nat, height as nat),
        blob@.len() == packed_len((masks@.len() * (width * height)) as nat),
{
    let bits = flatten_grids(masks, width, height);
    pack_bits(&bits)
}

/// Unpacks `count` masks of `height` rows of `width` cells from `blob`, by the
/// inverse of the layout of `pack_masks`.
pub fn unpack_masks(blob: &Vec<u8>, count: usize, width: usize, height: usize) -> (masks: Vec<Grid>)
    requires
        count * (width * height) <= 8 * blob@.len(),
        count * (width * height) <= usize::MAX,
    ensures
        all_sized(masks@, width as nat, height as nat),
        masks@.len() == count,
        grid_views(masks@) == unpack_spec(blob@, count as nat, width as nat, height as nat),
{
    let ghost w = width as nat;
    let ghost h = height as nat;
    let ghost wh = (width * height) as int;
    let ghost expected = unpack_spec(blob@, count as nat, w, h);
    let mut masks: Vec<Grid> = Vec::new();
    let mut base: usize = 0;
    let mut k: usize = 0;
    while k < count
        invariant
            w == width,
            h == height,
            wh == w * h,
            expected == unpack_spec(blob@, count as nat, w, h),
            count * wh <= 8 * blob@.len(),
            count * wh <= usize::MAX,
            k <= count,
            base == k * wh,
            masks@.len() == k,
            all_sized(masks@, w, h),
            forall|i: int| 0 <= i < k ==> #[trigger] masks@[i]@ == expected[i],
        decreases count - k,
    {
        proof {
            assert(k * wh + wh <= count * wh) by (nonlinear_arith)
                requires
                    k < count,
                    0 <= wh,
            ;
        }
        let mut rows: Vec<Vec<bool>> = Vec::new();
        let mut row_base: usize = base;
        let mut r: usize = 0;
        while r < height
            invariant
                w == width,
                h == height,
                wh == w * h,
                expected == unpack_spec(blob@, count as nat, w, h),
                k < count,
                base == k * wh,
                base + wh <= 8 * blob@.len(),
                base + wh <= usize::MAX,
                r <= height,
                row_base == base + r * w,
                rows@.len() == r,
                forall|i: int| 0 <= i < r ==> #[trigger] rows@[i]@ == expected[k as int][i],
            decreases height - r,
        {
            proof {
                assert(r * w + w <= wh) by (nonlinear_arith)
                    requires
                        r < h,
                        wh == w * h,
                ;
            }
            let mut row: Vec<bool> = Vec::new();
            let mut c: usize = 0;
            while c < width
                invariant
                    w == width,
                    h == height,
                    wh == w * h,
                    expected == unpack_spec(blob@, count as nat, w, h),
                    k < count,
                    r < height,
                    base == k * wh,
                    row_base == base + r * w,
                    row_base + w <= 8 * blob@.len(),
                    row_base + w <= usize::MAX,
                    c <= width,
                    row@.len() == c,
                    forall|i: int| 0 <= i < c ==> #[trigger] row@[i] == expected[k as int][r as int][i],
                decreases width - c,
            {
                let i: usize = row_base + c;
                let byte = blob[i / 8];
                let bit = (byte >> ((i % 8) as u8)) & 1u8 == 1u8;
                assert(bit == blob_bit(blob@, bit_index(w, h, k as int, r as int, c as int)));
                row.push(bit);
                c = c + 1;
            }
            assert(row@ =~= expected[k as int][r as int]);
            rows.push(row);
            proof {
                assert((r + 1) * w == r * w + w) by (nonlinear_arith);
            }
            row_base = row_base + width;
            r = r + 1;
        }
        proof {
            assert(rows_have_width(rows@.map_values(|row: Vec<bool>| row@), w));
            assert(rows@.map_values(|row: Vec<bool>| row@) =~= expected[k as int]);
        }
        let g = Grid::from_rows_unchecked(width, rows);
        masks.push(g);
        proof {
            assert(height * w == wh) by (nonlinear_arith)
                requires
                    wh == w * h,
                    h == height,
            ;
            assert((k + 1) * wh == k * wh + wh) by (nonlinear_arith);
        }
        base = base + width * height;
        k = k + 1;
    }
    assert(grid_views(masks@) =~= expected);
    masks
}

} // verus!
