use vstd::prelude::*;

use crate::grid::{rows_have_width, Grid};

verus! {

/// The cell at (`r`, `c`) lies inside an `m.len()` x `width` grid and is off.
pub open spec fn off_in_bounds(m: Seq<Seq<bool>>, width: nat, r: int, c: int) -> bool {
    0 <= r < m.len() && 0 <= c < width && !m[r][c]
}

/// Every orthogonal neighbour of (`r`, `c`) that lies inside the grid is on.
/// A neighbour beyond the edge does not count against the cell.
pub open spec fn surrounded(m: Seq<Seq<bool>>, width: nat, r: int, c: int) -> bool {
    &&& !off_in_bounds(m, width, r - 1, c)
    &&& !off_in_bounds(m, width, r + 1, c)
    &&& !off_in_bounds(m, width, r, c - 1)
    &&& !off_in_bounds(m, width, r, c + 1)
}

/// A cell of the outline: on, and not surrounded.
pub open spec fn outline_cell(m: Seq<Seq<bool>>, width: nat, r: int, c: int) -> bool {
    m[r][c] && !surrounded(m, width, r, c)
}

/// The outline of `m`: the on cells that have an off neighbour inside the grid.
pub open spec fn outline_of(m: Seq<Seq<bool>>, width: nat) -> Seq<Seq<bool>> {
    Seq::new(m.len(), |r: int| Seq::new(width, |c: int| outline_cell(m, width, r, c)))
}

/// Reduces a filled silhouette to its outline: an on cell is kept exactly when
/// one of its orthogonal neighbours inside the grid is off.
pub fn reduce_to_outline(g: &Grid) -> (o: Grid)
    requires
        g.wf(),
    ensures
        o.wf(),
        o.width() == g.width(),
        o@ == outline_of(g@, g.width() as nat),
{
    let width = g.width();
    let height = g.height();
    let ghost m = g@;
    let ghost w = width as nat;
    let ghost expected = outline_of(m, w);
    let mut rows: Vec<Vec<bool>> = Vec::new();
    let mut r: usize = 0;
    while r < height
        invariant
            g.wf(),
            m == g@,
            w == g.width(),
            width == g.width(),
            height == m.len(),
            expected == outline_of(m, w),
            r <= height,
            rows@.len() == r,
            forall|i: int| 0 <= i < r ==> #[trigger] rows@[i]@ == expected[i],
        decreases height - r,
    {
        let mut line: Vec<bool> = Vec::new();
        let mut c: usize = 0;
        while c < width
            invariant
                g.wf(),
                m == g@,
                w == g.width(),
                width == g.width(),
                height == m.len(),
                r < height,
                c <= width,
                line@.len() == c,
                forall|j: int| 0 <= j < c ==> #[trigger] line@[j] == outline_cell(m, w, r as int, j),
            decreases width - c,
        {
            let mut keep = false;
            if g.get(r, c) {
                let mut surrounded_here = true;
                if r > 0 {
                    surrounded_here = surrounded_here && g.get(r - 1, c);
                }
                if r + 1 < height {
                    surrounded_here = surrounded_here && g.get(r + 1, c);
                }
                if c > 0 {
                    surrounded_here = surrounded_here && g.get(r, c - 1);
                }
                if c + 1 < width {
                    surrounded_here = surrounded_here && g.get(r, c + 1);
                }
                assert(surrounded_here == surrounded(m, w, r as int, c as int));
                keep = !surrounded_here;
            }
            line.push(keep);
            c = c + 1;
        }
        assert(line@ =~= expected[r as int]);
        rows.push(line);
        r = r + 1;
    }
    proof {
        let v = rows@.map_values(|row: Vec<bool>| row@);
        assert(v =~= expected);
        assert(rows_have_width(v, w));
    }
    Grid::from_rows_unchecked(width, rows)
}

/// Reducing an outline again changes nothing: every cell that survives the
/// first reduction has an off neighbour inside the grid, and that neighbour is
/// still off in the outline.
pub proof fn lemma_outline_idempotent(m: Seq<Seq<bool>>, width: nat)
    requires
        rows_have_width(m, width),
    ensures
        outline_of(outline_of(m, width), width) == outline_of(m, width),
{
    let o = outline_of(m, width);
    assert forall|r: int| 0 <= r < o.len() implies #[trigger] outline_of(o, width)[r] =~= o[r] by {
        assert forall|c: int| 0 <= c < width implies #[trigger] outline_of(o, width)[r][c] == o[r][c] by {
            if o[r][c] {
                if off_in_bounds(m, width, r - 1, c) {
                    assert(off_in_bounds(o, width, r - 1, c));
                } else if off_in_bounds(m, width, r + 1, c) {
                    assert(off_in_bounds(o, width, r + 1, c));
                } else if off_in_bounds(m, width, r, c - 1) {
                    assert(off_in_bounds(o, width, r, c - 1));
                } else {
                    assert(off_in_bounds(o, width, r, c + 1));
                }
            }
        }
    }
    assert(outline_of(o, width) =~= o);
}

/// The cell (`r`, `c`) lies in the rectangle of `h` rows and `w` columns
/// whose top-left cell is (`r0`, `c0`).
pub open spec fn in_rect(r0: int, c0: int, h: int, w: int, r: int, c: int) -> bool {
    r0 <= r < r0 + h && c0 <= c < c0 + w
}

/// The cell (`r`, `c`) lies on the border of that rectangle.
pub open spec fn on_rect_border(r0: int, c0: int, h: int, w: int, r: int, c: int) -> bool {
    in_rect(r0, c0, h, w, r, c) && (r == r0 || r == r0 + h - 1 || c == c0 || c == c0 + w - 1)
}

/// A `height` x `width` grid whose on cells fill the rectangle (`r0`, `c0`, `h`, `w`).
pub open spec fn filled_rect(height: nat, width: nat, r0: int, c0: int, h: int, w: int) -> Seq<Seq<bool>> {
    Seq::new(height, |r: int| Seq::new(width, |c: int| in_rect(r0, c0, h, w, r, c)))
}

/// A `height` x `width` grid whose on cells are the border of that rectangle.
pub open spec fn rect_ring(height: nat, width: nat, r0: int, c0: int, h: int, w: int) -> Seq<Seq<bool>> {
    Seq::new(height, |r: int| Seq::new(width, |c: int| on_rect_border(r0, c0, h, w, r, c)))
}

/// A filled rectangle with empty cells all around it reduces to a hollow ring:
/// exactly its border cells remain on.
pub proof fn lemma_outline_of_filled_rect(height: nat, width: nat, r0: int, c0: int, h: int, w: int)
    requires
        1 <= r0,
        1 <= c0,
        r0 + h < height,
        c0 + w < width,
    ensures
        outline_of(filled_rect(height, width, r0, c0, h, w), width) == rect_ring(height, width, r0, c0, h, w),
{
    let m = filled_rect(height, width, r0, c0, h, w);
    let ring = rect_ring(height, width, r0, c0, h, w);
    assert forall|r: int| 0 <= r < height implies #[trigger] outline_of(m, width)[r] =~= ring[r] by {
        assert forall|c: int| 0 <= c < width implies #[trigger] outline_of(m, width)[r][c] == ring[r][c] by {
            if on_rect_border(r0, c0, h, w, r, c) {
                if r == r0 {
                    assert(off_in_bounds(m, width, r - 1, c));
                } else if r == r0 + h - 1 {
                    assert(off_in_bounds(m, width, r + 1, c));
                } else if c == c0 {
                    assert(off_in_bounds(m, width, r, c - 1));
                } else {
                    assert(off_in_bounds(m, width, r, c + 1));
                }
            } else if in_rect(r0, c0, h, w, r, c) {
                assert(m[r - 1][c] && m[r + 1][c] && m[r][c - 1] && m[r][c + 1]);
            }
        }
    }
    assert(outline_of(m, width) =~= ring);
}

} // verus!
