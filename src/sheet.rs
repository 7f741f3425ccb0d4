use vstd::prelude::*;

use crate::grid::{rows_have_width, Grid};
use crate::outline::{outline_of, reduce_to_outline};
use crate::packing::{all_sized, grid_views, pack_masks, pack_spec};

verus! {

/// How a sprite sheet is cut into cells: `columns` x `rows` cells of
/// `cell_width` x `cell_height` pixels each. Sprite `k` is the cell in row
/// `k / columns` and column `k % columns`.
#[derive(Clone, Copy, Debug, PartialEq, Eq)]
pub struct SheetLayout {
    pub columns: usize,
    pub rows: usize,
    pub cell_width: usize,
    pub cell_height: usize,
}

/// Why a sprite sheet was refused.
#[derive(Clone, Copy, Debug, PartialEq, Eq)]
pub enum SheetError {
    /// The sheet is not `columns * cell_width` pixels wide and
    /// `rows * cell_height` pixels high.
    DimensionMismatch,
    /// The pixel buffer does not hold four bytes for each pixel of the sheet.
    BufferLength,
    /// The sheet's PNG file does not decode.
    Undecodable,
}

/// The sheet's dimensions are those that the layout asks for.
pub open spec fn layout_matches(width: nat, height: nat, layout: SheetLayout) -> bool {
    width == layout.columns * layout.cell_width && height == layout.rows * layout.cell_height
}

/// Number of sprites of the layout.
pub open spec fn sprite_count(layout: SheetLayout) -> nat {
    (layout.columns * layout.rows) as nat
}

/// Pixel (`x`, `y`) of an RGBA sheet `sheet_width` pixels wide is on: its
/// alpha byte is not zero.
pub open spec fn pixel_on(rgba: Seq<u8>, sheet_width: nat, x: int, y: int) -> bool {
    rgba[4 * (y * sheet_width + x) + 3] != 0
}

/// The cells of sprite `k`: row `y`, column `x` is the sheet pixel at
/// `x` + the cell's left edge, `y` + the cell's top edge.
pub open spec fn sprite_cells(rgba: Seq<u8>, sheet_width: nat, layout: SheetLayout, k: int) -> Seq<Seq<bool>> {
    let left = (k % layout.columns as int) * layout.cell_width;
    let top = (k / layout.columns as int) * layout.cell_height;
    Seq::new(
        layout.cell_height as nat,
        |y: int| Seq::new(layout.cell_width as nat, |x: int| pixel_on(rgba, sheet_width, left + x, top + y)),
    )
}

/// All sprites of the sheet, in order.
pub open spec fn sheet_sprites(rgba: Seq<u8>, sheet_width: nat, layout: SheetLayout) -> Seq<Seq<Seq<bool>>> {
    Seq::new(sprite_count(layout), |k: int| sprite_cells(rgba, sheet_width, layout, k))
}

/// The outline of each sprite of the sheet.
pub open spec fn sheet_outlines(rgba: Seq<u8>, sheet_width: nat, layout: SheetLayout) -> Seq<Seq<Seq<bool>>> {
    Seq::new(
        sprite_count(layout),
        |k: int| outline_of(sprite_cells(rgba, sheet_width, layout, k), layout.cell_width as nat),
    )
}

/// What checking the sheet gives: the first failed check, or success.
pub open spec fn sheet_check(rgba: Seq<u8>, width: nat, height: nat, layout: SheetLayout) -> Result<(), SheetError> {
    if !layout_matches(width, height, layout) {
        Err(SheetError::DimensionMismatch)
    } else if rgba.len() != 4 * (width * height) {
        Err(SheetError::BufferLength)
    } else {
        Ok(())
    }
}

proof fn lemma_pixel_in_sheet(layout: SheetLayout, width: nat, height: nat, k: int, x: int, y: int)
    requires
        layout_matches(width, height, layout),
        0 <= k < sprite_count(layout),
        0 <= x < layout.cell_width,
        0 <= y < layout.cell_height,
    ensures
        ({
            let px = (k % layout.columns as int) * layout.cell_width + x;
            let py = (k / layout.columns as int) * layout.cell_height + y;
            &&& 0 <= px < width
            &&& 0 <= py < height
            &&& 0 <= py * width + px < width * height
        }),
{
    let cols = layout.columns as int;
    let rows = layout.rows as int;
    let cw = layout.cell_width as int;
    let ch = layout.cell_height as int;
    assert(cols > 0) by (nonlinear_arith)
        requires
            0 <= k < cols * rows,
            rows >= 0,
    ;
    let sc = k % cols;
    let sr = k / cols;
    assert(k == sr * cols + sc && 0 <= sc < cols && 0 <= sr) by (nonlinear_arith)
        requires
            cols > 0,
            k >= 0,
            sc == k % cols,
            sr == k / cols,
    ;
    assert(sr < rows) by (nonlinear_arith)
        requires
            k == sr * cols + sc,
            0 <= sc,
            k < cols * rows,
            cols > 0,
    ;
    let px = sc * cw + x;
    let py = sr * ch + y;
    assert(0 <= px < width) by (nonlinear_arith)
        requires
            0 <= sc < cols,
            0 <= x < cw,
            px == sc * cw + x,
            width == cols * cw,
    ;
    assert(0 <= py < height) by (nonlinear_arith)
        requires
            0 <= sr < rows,
            0 <= y < ch,
            py == sr * ch + y,
            height == rows * ch,
    ;
    assert(0 <= py * width + px < width * height) by (nonlinear_arith)
        requires
            0 <= px < width,
            0 <= py < height,
    ;
}

/// Cuts an RGBA sheet of `width` x `height` pixels (four bytes per pixel, row
/// by row) into the sprites of `layout`, a pixel being on when its alpha byte
/// is not zero. Refuses a sheet whose size differs from the layout's, then a
/// buffer of the wrong length.
pub fn slice_sheet(rgba: &Vec<u8>, width: usize, height: usize, layout: SheetLayout) -> (r: Result<Vec<Grid>, SheetError>)
    requires
        sprite_count(layout) <= usize::MAX,
    ensures
        match sheet_check(rgba@, width as nat, height as nat, layout) {
            Err(e) => r == Err::<Vec<Grid>, SheetError>(e),
            Ok(_) => r matches Ok(sprites) && {
                &&& all_sized(sprites@, layout.cell_width as nat, layout.cell_height as nat)
                &&& grid_views(sprites@) == sheet_sprites(rgba@, width as nat, layout)
            },
        },
{
    let fits_width = match layout.columns.checked_mul(layout.cell_width) {
        Some(w) => w == width,
        None => false,
    };
    let fits_height = match layout.rows.checked_mul(layout.cell_height) {
        Some(h) => h == height,
        None => false,
    };
    if !fits_width || !fits_height {
        return Err(SheetError::DimensionMismatch);
    }
    let len = rgba.len();
    let pixels_ok = match width.checked_mul(height) {
        Some(n) => len % 4 == 0 && len / 4 == n,
        None => false,
    };
    if !pixels_ok {
        return Err(SheetError::BufferLength);
    }
    let ghost sw = width as nat;
    let ghost expected = sheet_sprites(rgba@, sw, layout);
    let count = layout.columns * layout.rows;
    let mut sprites: Vec<Grid> = Vec::new();
    let mut k: usize = 0;
    while k < count
        invariant
            layout_matches(width as nat, height as nat, layout),
            rgba@.len() == 4 * (width * height),
            len == rgba@.len(),
            sw == width,
            expected == sheet_sprites(rgba@, sw, layout),
            count == sprite_count(layout),
            k <= count,
            sprites@.len() == k,
            all_sized(sprites@, layout.cell_width as nat, layout.cell_height as nat),
            forall|i: int| 0 <= i < k ==> #[trigger] sprites@[i]@ == expected[i],
        decreases count - k,
    {
        let sprite_row = k / layout.columns;
        let sprite_col = k % layout.columns;
        let mut cells: Vec<Vec<bool>> = Vec::new();
        let mut y: usize = 0;
        while y < layout.cell_height
            invariant
                layout_matches(width as nat, height as nat, layout),
                rgba@.len() == 4 * (width * height),
                len == rgba@.len(),
            len == rgba@.len(),
                sw == width,
                expected == sheet_sprites(rgba@, sw, layout),
                count == sprite_count(layout),
                k < count,
                layout.columns > 0,
                sprite_row == k as int / layout.columns as int,
                sprite_col == k as int % layout.columns as int,
                y <= layout.cell_height,
                cells@.len() == y,
                forall|i: int| 0 <= i < y ==> #[trigger] cells@[i]@ == expected[k as int][i],
            decreases layout.cell_height - y,
        {
            let mut line: Vec<bool> = Vec::new();
            let mut x: usize = 0;
            while x < layout.cell_width
                invariant
                    layout_matches(width as nat, height as nat, layout),
                    rgba@.len() == 4 * (width * height),
                    len == rgba@.len(),
                len == rgba@.len(),
            len == rgba@.len(),
                    sw == width,
                    expected == sheet_sprites(rgba@, sw, layout),
                    count == sprite_count(layout),
                    k < count,
                    layout.columns > 0,
                    sprite_row == k as int / layout.columns as int,
                    sprite_col == k as int % layout.columns as int,
                    y < layout.cell_height,
                    x <= layout.cell_width,
                    line@.len() == x,
                    forall|i: int| 0 <= i < x ==> #[trigger] line@[i] == expected[k as int][y as int][i],
                decreases layout.cell_width - x,
            {
                proof {
                    lemma_pixel_in_sheet(layout, width as nat, height as nat, k as int, x as int, y as int);
                }
                let px = sprite_col * layout.cell_width + x;
                let py = sprite_row * layout.cell_height + y;
                proof {
                    assert(py * width <= py * width + px < width * height);
                    assert(4 * (py * width + px) + 3 < rgba@.len());
                }
                let alpha = rgba[4 * (py * width + px) + 3];
                line.push(alpha != 0);
                x = x + 1;
            }
            assert(line@ =~= expected[k as int][y as int]);
            cells.push(line);
            y = y + 1;
        }
        proof {
            let m = cells@.map_values(|row: Vec<bool>| row@);
            assert(m =~= expected[k as int]);
            assert(rows_have_width(m, layout.cell_width as nat));
        }
        let g = Grid::from_rows_unchecked(layout.cell_width, cells);
        sprites.push(g);
        k = k + 1;
    }
    assert(grid_views(sprites@) =~= expected);
    Ok(sprites)
}

/// The outline of every grid of `grids`, in order.
pub fn outline_all(grids: &Vec<Grid>, width: usize, height: usize) -> (outlines: Vec<Grid>)
    requires
        all_sized(grids@, width as nat, height as nat),
    ensures
        all_sized(outlines@, width as nat, height as nat),
        outlines@.len() == grids@.len(),
        forall|k: int| 0 <= k < grids@.len() ==> #[trigger] outlines@[k]@ == outline_of(grids@[k]@, width as nat),
{
    let mut outlines: Vec<Grid> = Vec::new();
    let mut k: usize = 0;
    while k < grids.len()
        invariant
            all_sized(grids@, width as nat, height as nat),
            k <= grids@.len(),
            outlines@.len() == k,
            all_sized(outlines@, width as nat, height as nat),
            forall|i: int| 0 <= i < k ==> #[trigger] outlines@[i]@ == outline_of(grids@[i]@, width as nat),
        decreases grids@.len() - k,
    {
        assert(grids@[k as int].wf());
        let o = reduce_to_outline(&grids[k]);
        outlines.push(o);
        k = k + 1;
    }
    outlines
}

/// The whole preprocessing of a sprite sheet: cuts it into sprites (see
/// `slice_sheet`), reduces each sprite to its outline, and packs the outlines
/// into one blob (see `pack_masks`). Refuses the sheet as `slice_sheet` does.
pub fn build_collision_blob(rgba: &Vec<u8>, width: usize, height: usize, layout: SheetLayout) -> (r: Result<Vec<u8>, SheetError>)
    requires
        sprite_count(layout) <= usize::MAX,
    ensures
        match sheet_check(rgba@, width as nat, height as nat, layout) {
            Err(e) => r == Err::<Vec<u8>, SheetError>(e),
            Ok(_) => r matches Ok(blob) && blob@ == pack_spec(
                sheet_outlines(rgba@, width as nat, layout),
                layout.cell_width as nat,
                layout.cell_height as nat,
            ),
        },
{
    let sprites = match slice_sheet(rgba, width, height, layout) {
        Ok(sprites) => sprites,
        Err(e) => {
            return Err(e);
        },
    };
    let cw = layout.cell_width;
    let ch = layout.cell_height;
    let pixel_bytes = rgba.len();
    let outlines = outline_all(&sprites, cw, ch);
    proof {
        let n = sprite_count(layout) as int;
        assert(sheet_check(rgba@, width as nat, height as nat, layout) is Ok);
        assert(grid_views(sprites@).len() == sprites@.len());
        assert(sprites@.len() == n);
        assert(pixel_bytes == 4 * (width * height));
        assert(n * (cw * ch) == width * height) by (nonlinear_arith)
            requires
                n == layout.columns * layout.rows,
                width == layout.columns * cw,
                height == layout.rows * ch,
        ;
        assert(outlines@.len() == n);
        assert(grid_views(outlines@) =~= sheet_outlines(rgba@, width as nat, layout)) by {
            let views = grid_views(sprites@);
            assert forall|k: int| 0 <= k < n implies #[trigger] grid_views(outlines@)[k] == sheet_outlines(rgba@, width as nat, layout)[k] by {
                assert(views[k] == sheet_sprites(rgba@, width as nat, layout)[k]);
            }
        }
    }
    let blob = pack_masks(&outlines, cw, ch);
    Ok(blob)
}

/// What the PNG file `png` decodes to at 8 bits per channel: its RGBA pixels
/// (four bytes each, row by row), its width and its height in pixels; `None`
/// when it does not decode. It depends on the bytes alone.
pub uninterp spec fn png_rgba(png: Seq<u8>) -> Option<(Seq<u8>, nat, nat)>;

/// Relies on `lodepng::decode32`: decodes a PNG file held in memory to 8-bit
/// RGBA pixels, row by row, with the image's width and height; an error when
/// the bytes are no PNG it can decode.
#[verifier::external_body]
fn decode_png_rgba(png: &Vec<u8>) -> (r: Option<(Vec<u8>, usize, usize)>)
    ensures
        match png_rgba(png@) {
            None => r is None,
            Some((rgba, w, h)) => r matches Some((bytes, width, height)) && bytes@ == rgba && width == w && height
                == h,
        },
{
    match lodepng::decode32(png) {
        Ok(bitmap) => Some((
            lodepng::bytemuck::cast_slice::<lodepng::RGBA, u8>(&bitmap.buffer).to_vec(),
            bitmap.width,
            bitmap.height,
        )),
        Err(_) => None,
    }
}

/// The preprocessing of a sprite sheet held as a PNG file: decodes it, then
/// does what `build_collision_blob` does with its pixels.
pub fn build_collision_blob_from_png(png: &Vec<u8>, layout: SheetLayout) -> (r: Result<Vec<u8>, SheetError>)
    requires
        sprite_count(layout) <= usize::MAX,
    ensures
        match png_rgba(png@) {
            None => r == Err::<Vec<u8>, SheetError>(SheetError::Undecodable),
            Some((rgba, w, h)) => match sheet_check(rgba, w, h, layout) {
                Err(e) => r == Err::<Vec<u8>, SheetError>(e),
                Ok(_) => r matches Ok(blob) && blob@ == pack_spec(
                    sheet_outlines(rgba, w, layout),
                    layout.cell_width as nat,
                    layout.cell_height as nat,
                ),
            },
        },
{
    match decode_png_rgba(png) {
        None => Err(SheetError::Undecodable),
        Some((rgba, width, height)) => build_collision_blob(&rgba, width, height, layout),
    }
}

} // verus!
