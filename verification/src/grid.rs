//! The grid store: a dense `width x height` array of fixed-point density
//! values addressed by integer cell coordinates.  A value of `0` means the
//! cell is empty; any non-zero value is the density of the occupying particle.

use vstd::prelude::*;

verus! {

/// The grid resource.  Cells are kept in one flat allocation, column by
/// column; the model seen by contracts is a sequence of `width` columns of
/// `height` cells each.
pub struct Grid {
    pub width: usize,
    pub height: usize,
    pub cells: Vec<u64>,
}

/// The model of a grid after one cell is written.
pub open spec fn grid_write(g: Seq<Seq<u64>>, x: int, y: int, v: u64) -> Seq<Seq<u64>> {
    g.update(x, g[x].update(y, v))
}

/// The model holds `w` columns of `h` cells each.
pub open spec fn grid_shape(g: Seq<Seq<u64>>, w: int, h: int) -> bool {
    &&& g.len() == w
    &&& forall|x: int| 0 <= x < w ==> (#[trigger] g[x]).len() == h
}

/// `(x, y)` is a coordinate inside a `w x h` grid.
pub open spec fn in_bounds(w: int, h: int, x: int, y: int) -> bool {
    0 <= x < w && 0 <= y < h
}

/// Distinct in-bounds coordinates occupy distinct slots of the flat store.
proof fn lemma_flat_index_injective(x1: int, y1: int, x2: int, y2: int, h: int)
    by (nonlinear_arith)
    requires
        0 <= x1,
        0 <= x2,
        0 <= y1 < h,
        0 <= y2 < h,
        x1 != x2 || y1 != y2,
    ensures
        x1 * h + y1 != x2 * h + y2,
{
}

/// An in-bounds coordinate lands inside the flat store.
proof fn lemma_flat_index_in_range(x: int, y: int, w: int, h: int)
    by (nonlinear_arith)
    requires
        0 <= x < w,
        0 <= y < h,
    ensures
        0 <= x * h + y < w * h,
{
}

impl View for Grid {
    type V = Seq<Seq<u64>>;

    open spec fn view(&self) -> Seq<Seq<u64>> {
        Seq::new(
            self.width as nat,
            |x: int| Seq::new(self.height as nat, |y: int| self.cells@[x * self.height + y]),
        )
    }
}

impl Grid {
    /// The store is well formed: positive extents, one slot per cell.
    pub open spec fn wf(&self) -> bool {
        &&& 1 <= self.width
        &&& 1 <= self.height
        &&& self.cells@.len() == self.width * self.height
    }

    /// Create a grid of the given fixed dimensions with every cell empty.
    pub fn new(width: usize, height: usize) -> (g: Grid)
        requires
            1 <= width,
            1 <= height,
            width * height <= usize::MAX,
        ensures
            g.wf(),
            g.width == width,
            g.height == height,
            grid_shape(g@, width as int, height as int),
            forall|x: int, y: int|
                in_bounds(width as int, height as int, x, y) ==> #[trigger] g@[x][y] == 0,
    {
        let n = width * height;
        let mut cells: Vec<u64> = Vec::new();
        let mut i: usize = 0;
        while i < n
            invariant
                i <= n,
                cells@.len() == i,
                forall|k: int| 0 <= k < i ==> cells@[k] == 0,
            decreases n - i,
        {
            cells.push(0);
            i = i + 1;
        }
        let g = Grid { width, height, cells };
        proof {
            assert forall|x: int, y: int|
                in_bounds(width as int, height as int, x, y) implies g@[x][y] == 0 by {
                lemma_flat_index_in_range(x, y, width as int, height as int);
            }
        }
        g
    }

    /// Read the density stored at an in-bounds cell.
    pub fn get(&self, x: usize, y: usize) -> (d: u64)
        requires
            self.wf(),
            x < self.width,
            y < self.height,
        ensures
            d == self@[x as int][y as int],
    {
        let len = self.cells.len();
        proof {
            lemma_flat_index_in_range(x as int, y as int, self.width as int, self.height as int);
        }
        self.cells[x * self.height + y]
    }

    /// Read a cell with an explicit bounds check: `None` signals the
    /// out-of-bounds condition instead of violating a contract.
    pub fn checked_get(&self, x: usize, y: usize) -> (d: Option<u64>)
        requires
            self.wf(),
        ensures
            match d {
                Some(v) => in_bounds(self.width as int, self.height as int, x as int, y as int)
                    && v == self@[x as int][y as int],
                None => !in_bounds(self.width as int, self.height as int, x as int, y as int),
            },
    {
        if x < self.width && y < self.height {
            Some(self.get(x, y))
        } else {
            None
        }
    }

    /// Write the density of an in-bounds cell.
    pub fn set(&mut self, x: usize, y: usize, v: u64)
        requires
            old(self).wf(),
            x < old(self).width,
            y < old(self).height,
        ensures
            final(self).wf(),
            final(self).width == old(self).width,
            final(self).height == old(self).height,
            final(self)@ == grid_write(old(self)@, x as int, y as int, v),
    {
        let len = self.cells.len();
        proof {
            lemma_flat_index_in_range(x as int, y as int, self.width as int, self.height as int);
        }
        let idx = x * self.height + y;
        self.cells.set(idx, v);
        proof {
            let w = self.width as int;
            let h = self.height as int;
            let rhs = grid_write(old(self)@, x as int, y as int, v);
            assert forall|x2: int| 0 <= x2 < w implies self@[x2] =~= rhs[x2] by {
                assert forall|y2: int| 0 <= y2 < h implies self@[x2][y2] == rhs[x2][y2] by {
                    lemma_flat_index_in_range(x2, y2, w, h);
                    if x2 != x as int || y2 != y as int {
                        lemma_flat_index_injective(x2, y2, x as int, y as int, h);
                    }
                }
            }
            assert(self@ =~= rhs);
        }
    }
}

} // verus!
