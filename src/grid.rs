use vstd::prelude::*;

verus! {

/// A rectangular grid of booleans, stored row by row.
///
/// `g@[r][c]` is the cell in row `r` and column `c`. Every row holds
/// exactly `width()` cells, which `wf` states.
#[derive(Clone, Debug, PartialEq, Eq)]
pub struct Grid {
    width: usize,
    rows: Vec<Vec<bool>>,
}

impl View for Grid {
    type V = Seq<Seq<bool>>;

    closed spec fn view(&self) -> Seq<Seq<bool>> {
        self.rows@.map_values(|row: Vec<bool>| row@)
    }
}

/// Every row of `m` holds `width` cells.
pub open spec fn rows_have_width(m: Seq<Seq<bool>>, width: nat) -> bool {
    forall|r: int| 0 <= r < m.len() ==> #[trigger] m[r].len() == width
}

/// The grid of `height` rows of `width` cells, each equal to `value`.
pub open spec fn uniform_grid(height: nat, width: nat, value: bool) -> Seq<Seq<bool>> {
    Seq::new(height, |r: int| Seq::new(width, |c: int| value))
}

impl Grid {
    pub closed spec fn spec_width(&self) -> usize {
        self.width
    }

    /// Well-formedness: every row holds `width()` cells.
    pub open spec fn wf(&self) -> bool {
        rows_have_width(self@, self.spec_width() as nat)
    }

    /// A `width` x `height` grid with every cell off.
    pub fn new(width: usize, height: usize) -> (g: Grid)
        ensures
            g.wf(),
            g.spec_width() == width,
            g@ == uniform_grid(height as nat, width as nat, false),
    {
        let mut rows: Vec<Vec<bool>> = Vec::new();
        let mut r: usize = 0;
        while r < height
            invariant
                r <= height,
                rows@.len() == r,
                forall|i: int| 0 <= i < r ==> #[trigger] rows@[i]@ == Seq::new(width as nat, |c: int| false),
            decreases height - r,
        {
            let mut row: Vec<bool> = Vec::new();
            let mut c: usize = 0;
            while c < width
                invariant
                    c <= width,
                    row@ == Seq::new(c as nat, |j: int| false),
                decreases width - c,
            {
                row.push(false);
                c = c + 1;
                assert(row@ =~= Seq::new(c as nat, |j: int| false));
            }
            rows.push(row);
            r = r + 1;
        }
        let g = Grid { width, rows };
        assert(g@ =~= uniform_grid(height as nat, width as nat, false));
        g
    }

    /// The grid whose rows are `rows`, when each of them holds `width` cells.
    pub fn from_rows(width: usize, rows: Vec<Vec<bool>>) -> (g: Option<Grid>)
        ensures
            g is Some <==> rows_have_width(rows@.map_values(|row: Vec<bool>| row@), width as nat),
            g matches Some(grid) ==> grid.wf() && grid.width() == width
                && grid@ == rows@.map_values(|row: Vec<bool>| row@),
    {
        let ghost m = rows@.map_values(|row: Vec<bool>| row@);
        let mut r: usize = 0;
        while r < rows.len()
            invariant
                r <= rows@.len(),
                m == rows@.map_values(|row: Vec<bool>| row@),
                forall|i: int| 0 <= i < r ==> #[trigger] m[i].len() == width,
            decreases rows@.len() - r,
        {
            if rows[r].len() != width {
                assert(m[r as int].len() != width);
                return None;
            }
            r = r + 1;
        }
        Some(Grid::from_rows_unchecked(width, rows))
    }

    /// The grid whose rows are `rows`, each of which holds `width` cells.
    pub(crate) fn from_rows_unchecked(width: usize, rows: Vec<Vec<bool>>) -> (g: Grid)
        requires
            rows_have_width(rows@.map_values(|row: Vec<bool>| row@), width as nat),
        ensures
            g.wf(),
            g.width() == width,
            g@ == rows@.map_values(|row: Vec<bool>| row@),
    {
        Grid { width, rows }
    }

    /// Number of cells in each row.
    #[verifier::when_used_as_spec(spec_width)]
    pub fn width(&self) -> (w: usize)
        ensures
            w == self.spec_width(),
    {
        self.width
    }

    /// Number of rows.
    pub fn height(&self) -> (h: usize)
        ensures
            h == self@.len(),
    {
        self.rows.len()
    }

    /// The cell in row `row` and column `col`.
    pub fn get(&self, row: usize, col: usize) -> (b: bool)
        requires
            self.wf(),
            row < self@.len(),
            col < self.width(),
        ensures
            b == self@[row as int][col as int],
    {
        assert(self@[row as int].len() == self.width());
        self.rows[row][col]
    }

    /// Sets the cell in row `row` and column `col` to `value`.
    pub fn set(&mut self, row: usize, col: usize, value: bool)
        requires
            old(self).wf(),
            row < old(self)@.len(),
            col < old(self).width(),
        ensures
            final(self).wf(),
            final(self).width() == old(self).width(),
            final(self)@ == old(self)@.update(row as int, old(self)@[row as int].update(col as int, value)),
    {
        assert(self@[row as int].len() == self.width());
        let mut line = self.rows[row].clone();
        line.set(col, value);
        self.rows.set(row, line);
        assert(self@ =~= old(self)@.update(row as int, old(self)@[row as int].update(col as int, value)));
    }
}

} // verus!
