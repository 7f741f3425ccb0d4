use cosmos_raiders::outline::reduce_to_outline;
use cosmos_raiders::packing::{pack_masks, unpack_masks};
use cosmos_raiders::sheet::{build_collision_blob, build_collision_blob_from_png, slice_sheet, SheetError, SheetLayout};

fn layout(columns: usize, rows: usize, cell_width: usize, cell_height: usize) -> SheetLayout {
    SheetLayout { columns, rows, cell_width, cell_height }
}

fn sheet_with(width: usize, height: usize, on: &[(usize, usize)]) -> Vec<u8> {
    let mut rgba = vec![0u8; width * height * 4];
    for p in 0..width * height {
        rgba[4 * p] = 200;
        rgba[4 * p + 1] = 100;
        rgba[4 * p + 2] = 50;
    }
    for &(x, y) in on {
        rgba[4 * (y * width + x) + 3] = 255;
    }
    rgba
}

#[test]
fn slice_refuses_wrong_dimensions() {
    let rgba = sheet_with(4, 2, &[]);
    assert_eq!(slice_sheet(&rgba, 4, 2, layout(2, 1, 2, 3)).unwrap_err(), SheetError::DimensionMismatch);
    assert_eq!(slice_sheet(&rgba, 4, 2, layout(3, 1, 2, 2)).unwrap_err(), SheetError::DimensionMismatch);
    assert_eq!(
        build_collision_blob(&rgba, 4, 2, layout(1, 1, 4, 4)).unwrap_err(),
        SheetError::DimensionMismatch
    );
}

#[test]
fn slice_refuses_short_buffer() {
    let mut rgba = sheet_with(4, 2, &[]);
    rgba.pop();
    assert_eq!(slice_sheet(&rgba, 4, 2, layout(2, 1, 2, 2)).unwrap_err(), SheetError::BufferLength);
    assert_eq!(build_collision_blob(&rgba, 4, 2, layout(2, 1, 2, 2)).unwrap_err(), SheetError::BufferLength);
}

#[test]
fn slice_cuts_cells_in_order() {
    // A 4x4 sheet of 2x2 cells: sprite k is row k / 2, column k % 2.
    let rgba = sheet_with(4, 4, &[(0, 0), (3, 0), (2, 1), (1, 3)]);
    let sprites = slice_sheet(&rgba, 4, 4, layout(2, 2, 2, 2)).unwrap();
    assert_eq!(sprites.len(), 4);
    let on = |k: usize| -> Vec<(usize, usize)> {
        let mut v = Vec::new();
        for y in 0..2 {
            for x in 0..2 {
                if sprites[k].get(y, x) {
                    v.push((y, x));
                }
            }
        }
        v
    };
    assert_eq!(on(0), vec![(0, 0)]);
    assert_eq!(on(1), vec![(0, 1), (1, 0)]);
    assert_eq!(on(2), vec![(1, 1)]);
    assert_eq!(on(3), Vec::<(usize, usize)>::new());
}

#[test]
fn alpha_alone_decides_a_pixel() {
    let mut rgba = vec![255u8; 2 * 1 * 4];
    rgba[3] = 0;
    let sprites = slice_sheet(&rgba, 2, 1, layout(2, 1, 1, 1)).unwrap();
    assert!(!sprites[0].get(0, 0));
    assert!(sprites[1].get(0, 0));
}

#[test]
fn build_blob_outlines_then_packs() {
    // Two 6x6 cells side by side; the first holds a 4x4 square at (1, 1).
    let mut on = Vec::new();
    for y in 1..5 {
        for x in 1..5 {
            on.push((x, y));
        }
    }
    on.push((9, 2));
    let rgba = sheet_with(12, 6, &on);
    let l = layout(2, 1, 6, 6);
    let blob = build_collision_blob(&rgba, 12, 6, l).unwrap();
    let sprites = slice_sheet(&rgba, 12, 6, l).unwrap();
    let outlines: Vec<_> = sprites.iter().map(reduce_to_outline).collect();
    assert_eq!(blob, pack_masks(&outlines, 6, 6));
    assert_eq!(blob.len(), 9);
    let back = unpack_masks(&blob, 2, 6, 6);
    assert!(back[0].get(1, 1) && back[0].get(4, 4) && back[0].get(1, 3));
    assert!(!back[0].get(2, 2) && !back[0].get(3, 3));
    assert!(back[1].get(2, 3));
    // Bit of cell (1, 1) of sprite 0 is 7; bit of (2, 2) is 14 and stays off.
    assert_eq!(blob[0] & 0x80, 0x80);
    assert_eq!(blob[1] & 0x40, 0);
}

fn square_sheet() -> (Vec<u8>, SheetLayout) {
    let mut on = Vec::new();
    for y in 1..5 {
        for x in 1..5 {
            on.push((x, y));
        }
    }
    on.push((9, 2));
    (sheet_with(12, 6, &on), layout(2, 1, 6, 6))
}

#[test]
fn png_sheet_gives_the_same_blob() {
    let (rgba, l) = square_sheet();
    let png = lodepng::encode32(&rgba[..], 12, 6).unwrap();
    let from_png = build_collision_blob_from_png(&png, l).unwrap();
    assert_eq!(from_png, build_collision_blob(&rgba, 12, 6, l).unwrap());
    assert_eq!(from_png.len(), 9);
    assert_eq!(from_png[0] & 0x80, 0x80);
    assert_eq!(from_png[1] & 0x40, 0);
}

#[test]
fn png_sheet_of_wrong_size_is_refused() {
    let (rgba, _) = square_sheet();
    let png = lodepng::encode32(&rgba[..], 12, 6).unwrap();
    assert_eq!(build_collision_blob_from_png(&png, layout(2, 2, 6, 6)).unwrap_err(), SheetError::DimensionMismatch);
}

#[test]
fn bytes_that_are_no_png_are_refused() {
    let junk = vec![1u8, 2, 3, 4, 5, 6, 7, 8, 9];
    assert_eq!(build_collision_blob_from_png(&junk, layout(1, 1, 1, 1)).unwrap_err(), SheetError::Undecodable);
}
