use vstd::prelude::*;

verus! {

/// Tile index of an empty floor cell.
pub const EMPTY: usize = 0;

/// Tile index of the player's avatar.
pub const HERO: usize = 1;

/// Tile index of a wall.
pub const WALL: usize = 2;

/// Cells of the rectangle with top-left corner `(x, y)` (column, row) and the given extent.
pub open spec fn in_rect(x: int, y: int, width: int, height: int, row: int, col: int) -> bool {
    y <= row < y + height && x <= col < x + width
}

/// Cells on the outline of that rectangle.
pub open spec fn on_rect_border(x: int, y: int, width: int, height: int, row: int, col: int) -> bool {
    in_rect(x, y, width, height, row, col) && (row == y || row == y + height - 1 || col == x || col
        == x + width - 1)
}

/// Cells of the straight run of `length` cells starting at `(x, y)`, downwards when
/// `is_vertical` and to the right otherwise.
pub open spec fn on_line(x: int, y: int, is_vertical: bool, length: int, row: int, col: int) -> bool {
    if is_vertical {
        col == x && y <= row < y + length
    } else {
        row == y && x <= col < x + length
    }
}

/// Row-major position of `(row, col)` lies inside a `width * height` array.
pub proof fn lemma_cell_index(width: int, height: int, row: int, col: int)
    requires
        0 <= row < height,
        0 <= col < width,
    ensures
        0 <= row * width + col < width * height,
{
    assert(0 <= row * width + col < width * height) by (nonlinear_arith)
        requires
            0 <= row < height,
            0 <= col < width,
    ;
}

/// Two cells of one row width share a row-major position only if they are the same cell.
pub proof fn lemma_cell_index_unique(width: int, r1: int, c1: int, r2: int, c2: int)
    requires
        0 <= r1,
        0 <= r2,
        0 <= c1 < width,
        0 <= c2 < width,
        r1 * width + c1 == r2 * width + c2,
    ensures
        r1 == r2,
        c1 == c2,
{
    if r1 < r2 {
        assert(r1 * width + c1 < r2 * width + c2) by (nonlinear_arith)
            requires
                r1 < r2,
                0 <= c1 < width,
                0 <= c2,
        ;
    } else if r2 < r1 {
        assert(r2 * width + c2 < r1 * width + c1) by (nonlinear_arith)
            requires
                r2 < r1,
                0 <= c2 < width,
                0 <= c1,
        ;
    }
}

/// A rectangular grid of tile indices stored row by row in one flat vector.
pub struct TileGrid {
    pub width: usize,
    pub height: usize,
    pub cells: Vec<usize>,
}

impl TileGrid {
    /// The vector holds exactly one entry per cell.
    pub open spec fn wf(&self) -> bool {
        self.cells@.len() == self.width * self.height
    }

    pub open spec fn in_bounds(&self, row: int, col: int) -> bool {
        0 <= row < self.height && 0 <= col < self.width
    }

    /// The tile at `(row, col)`.
    pub open spec fn tile(&self, row: int, col: int) -> usize {
        self.cells@[row * self.width + col]
    }

    /// A `width * height` grid with every cell set to `fill`.
    pub fn filled(width: usize, height: usize, fill: usize) -> (g: TileGrid)
        requires
            width * height <= usize::MAX,
        ensures
            g.wf(),
            g.width == width,
            g.height == height,
            forall|r: int, c: int| #[trigger] g.in_bounds(r, c) ==> g.tile(r, c) == fill,
    {
        let n: usize = width * height;
        let mut cells: Vec<usize> = Vec::with_capacity(n);
        let mut i: usize = 0;
        while i < n
            invariant
                i <= n,
                cells@.len() == i,
                forall|k: int| 0 <= k < i ==> cells@[k] == fill,
            decreases n - i,
        {
            cells.push(fill);
            i = i + 1;
        }
        let g = TileGrid { width, height, cells };
        assert forall|r: int, c: int| #[trigger] g.in_bounds(r, c) implies g.tile(r, c) == fill by {
            lemma_cell_index(width as int, height as int, r, c);
        }
        g
    }

    /// The tile at `(row, col)`.
    pub fn get(&self, row: usize, col: usize) -> (t: usize)
        requires
            self.wf(),
            self.in_bounds(row as int, col as int),
        ensures
            t == self.tile(row as int, col as int),
    {
        proof {
            lemma_cell_index(self.width as int, self.height as int, row as int, col as int);
            assert(self.cells@.len() == self.cells.len());
        }
        self.cells[row * self.width + col]
    }

    /// Puts tile `t` at `(row, col)` and leaves every other cell as it was.
    pub fn set(&mut self, row: usize, col: usize, t: usize)
        requires
            old(self).wf(),
            old(self).in_bounds(row as int, col as int),
        ensures
            final(self).wf(),
            final(self).width == old(self).width,
            final(self).height == old(self).height,
            final(self).tile(row as int, col as int) == t,
            forall|r: int, c: int|
                #[trigger] final(self).in_bounds(r, c) ==> final(self).tile(r, c) == if r == row
                    && c == col {
                    t
                } else {
                    old(self).tile(r, c)
                },
    {
        proof {
            lemma_cell_index(self.width as int, self.height as int, row as int, col as int);
            assert(self.cells@.len() == self.cells.len());
        }
        let ghost before = *self;
        let idx: usize = row * self.width + col;
        self.cells.set(idx, t);
        proof {
            assert forall|r: int, c: int| #[trigger]
                self.in_bounds(r, c) implies self.tile(r, c) == if r == row && c == col {
                t
            } else {
                before.tile(r, c)
            } by {
                lemma_cell_index(self.width as int, self.height as int, r, c);
                if r * self.width + c == idx as int {
                    lemma_cell_index_unique(self.width as int, r, c, row as int, col as int);
                }
            }
        }
    }
}

/// Builds a tile grid by walling and carving rectangles and lines.
pub struct MapBuilder {
    grid: TileGrid,
}

impl MapBuilder {
    /// The grid under construction.
    pub closed spec fn grid(&self) -> TileGrid {
        self.grid
    }

    pub closed spec fn wf(&self) -> bool {
        self.grid.wf()
    }

    /// Sets the outline of the rectangle at `(x, y)` of the given extent to walls and leaves its
    /// interior and the rest of the grid as they were.
    pub fn wall_rect(&mut self, x: usize, y: usize, width: usize, height: usize)
        requires
            old(self).wf(),
            width >= 1,
            height >= 1,
            x + width <= old(self).grid().width,
            y + height <= old(self).grid().height,
        ensures
            final(self).wf(),
            final(self).grid().width == old(self).grid().width,
            final(self).grid().height == old(self).grid().height,
            forall|r: int, c: int| #[trigger]
                final(self).grid().in_bounds(r, c) ==> final(self).grid().tile(r, c) == if on_rect_border(
                    x as int,
                    y as int,
                    width as int,
                    height as int,
                    r,
                    c,
                ) {
                    WALL
                } else {
                    old(self).grid().tile(r, c)
                },
    {
        let ghost g0 = self.grid;
        let mut current_x: usize = 0;
        while current_x < width
            invariant
                current_x <= width,
                width >= 1,
                height >= 1,
                self.grid.wf(),
                self.grid.width == g0.width,
                self.grid.height == g0.height,
                x + width <= g0.width,
                y + height <= g0.height,
                forall|r: int, c: int| #[trigger]
                    self.grid.in_bounds(r, c) ==> self.grid.tile(r, c) == if (r == y || r == y
                        + height - 1) && x <= c < x + current_x {
                        WALL
                    } else {
                        g0.tile(r, c)
                    },
            decreases width - current_x,
        {
            let ghost prev = self.grid;
            self.grid.set(y, x + current_x, WALL);
            let ghost mid = self.grid;
            self.grid.set(y + height - 1, x + current_x, WALL);
            assert forall|r: int, c: int| #[trigger]
                self.grid.in_bounds(r, c) implies self.grid.tile(r, c) == if (r == y || r == y
                + height - 1) && x <= c < x + current_x + 1 {
                WALL
            } else {
                g0.tile(r, c)
            } by {
                assert(prev.in_bounds(r, c));
                assert(mid.in_bounds(r, c));
            }
            current_x = current_x + 1;
        }
        let mut current_y: usize = 0;
        while current_y < height
            invariant
                current_y <= height,
                width >= 1,
                height >= 1,
                self.grid.wf(),
                self.grid.width == g0.width,
                self.grid.height == g0.height,
                x + width <= g0.width,
                y + height <= g0.height,
                forall|r: int, c: int| #[trigger]
                    self.grid.in_bounds(r, c) ==> self.grid.tile(r, c) == if ((r == y || r == y
                        + height - 1) && x <= c < x + width) || ((c == x || c == x + width - 1)
                        && y <= r < y + current_y) {
                        WALL
                    } else {
                        g0.tile(r, c)
                    },
            decreases height - current_y,
        {
            let ghost prev = self.grid;
            self.grid.set(y + current_y, x, WALL);
            let ghost mid = self.grid;
            self.grid.set(y + current_y, x + width - 1, WALL);
            assert forall|r: int, c: int| #[trigger]
                self.grid.in_bounds(r, c) implies self.grid.tile(r, c) == if ((r == y || r == y
                + height - 1) && x <= c < x + width) || ((c == x || c == x + width - 1) && y <= r
                < y + current_y + 1) {
                WALL
            } else {
                g0.tile(r, c)
            } by {
                assert(prev.in_bounds(r, c));
                assert(mid.in_bounds(r, c));
            }
            current_y = current_y + 1;
        }
    }

    /// Sets the cells of the line starting at `(x, y)` to `t`.
    fn paint_line(&mut self, x: usize, y: usize, is_vertical: bool, length: usize, t: usize)
        requires
            old(self).wf(),
            is_vertical ==> x < old(self).grid().width && y + length <= old(self).grid().height,
            !is_vertical ==> y < old(self).grid().height && x + length <= old(self).grid().width,
        ensures
            final(self).wf(),
            final(self).grid().width == old(self).grid().width,
            final(self).grid().height == old(self).grid().height,
            forall|r: int, c: int| #[trigger]
                final(self).grid().in_bounds(r, c) ==> final(self).grid().tile(r, c) == if on_line(
                    x as int,
                    y as int,
                    is_vertical,
                    length as int,
                    r,
                    c,
                ) {
                    t
                } else {
                    old(self).grid().tile(r, c)
                },
    {
        let ghost g0 = self.grid;
        let mut current: usize = 0;
        while current < length
            invariant
                current <= length,
                self.grid.wf(),
                self.grid.width == g0.width,
                self.grid.height == g0.height,
                is_vertical ==> x < g0.width && y + length <= g0.height,
                !is_vertical ==> y < g0.height && x + length <= g0.width,
                forall|r: int, c: int| #[trigger]
                    self.grid.in_bounds(r, c) ==> self.grid.tile(r, c) == if on_line(
                        x as int,
                        y as int,
                        is_vertical,
                        current as int,
                        r,
                        c,
                    ) {
                        t
                    } else {
                        g0.tile(r, c)
                    },
            decreases length - current,
        {
            let ghost prev = self.grid;
            if is_vertical {
                self.grid.set(y + current, x, t);
            } else {
                self.grid.set(y, x + current, t);
            }
            assert forall|r: int, c: int| #[trigger]
                self.grid.in_bounds(r, c) implies self.grid.tile(r, c) == if on_line(
                x as int,
                y as int,
                is_vertical,
                current + 1,
                r,
                c,
            ) {
                t
            } else {
                g0.tile(r, c)
            } by {
                assert(prev.in_bounds(r, c));
            }
            current = current + 1;
        }
    }

    /// Sets the `length` cells starting at `(x, y)`, downwards when `is_vertical` and to the
    /// right otherwise, to walls.
    pub fn wall_line(&mut self, x: usize, y: usize, is_vertical: bool, length: usize)
        requires
            old(self).wf(),
            is_vertical ==> x < old(self).grid().width && y + length <= old(self).grid().height,
            !is_vertical ==> y < old(self).grid().height && x + length <= old(self).grid().width,
        ensures
            final(self).wf(),
            final(self).grid().width == old(self).grid().width,
            final(self).grid().height == old(self).grid().height,
            forall|r: int, c: int| #[trigger]
                final(self).grid().in_bounds(r, c) ==> final(self).grid().tile(r, c) == if on_line(
                    x as int,
                    y as int,
                    is_vertical,
                    length as int,
                    r,
                    c,
                ) {
                    WALL
                } else {
                    old(self).grid().tile(r, c)
                },
    {
        self.paint_line(x, y, is_vertical, length, WALL);
    }

    /// Empties the `length` cells starting at `(x, y)`, downwards when `is_vertical` and to the
    /// right otherwise.
    pub fn carve_out_line(&mut self, x: usize, y: usize, is_vertical: bool, length: usize)
        requires
            old(self).wf(),
            is_vertical ==> x < old(self).grid().width && y + length <= old(self).grid().height,
            !is_vertical ==> y < old(self).grid().height && x + length <= old(self).grid().width,
        ensures
            final(self).wf(),
            final(self).grid().width == old(self).grid().width,
            final(self).grid().height == old(self).grid().height,
            forall|r: int, c: int| #[trigger]
                final(self).grid().in_bounds(r, c) ==> final(self).grid().tile(r, c) == if on_line(
                    x as int,
                    y as int,
                    is_vertical,
                    length as int,
                    r,
                    c,
                ) {
                    EMPTY
                } else {
                    old(self).grid().tile(r, c)
                },
    {
        self.paint_line(x, y, is_vertical, length, EMPTY);
    }

    /// Empties every cell of the rectangle at `(x, y)` of the given extent.
    pub fn carve_out_rect(&mut self, x: usize, y: usize, width: usize, height: usize)
        requires
            old(self).wf(),
            x + width <= old(self).grid().width,
            y + height <= old(self).grid().height,
        ensures
            final(self).wf(),
            final(self).grid().width == old(self).grid().width,
            final(self).grid().height == old(self).grid().height,
            forall|r: int, c: int| #[trigger]
                final(self).grid().in_bounds(r, c) ==> final(self).grid().tile(r, c) == if in_rect(
                    x as int,
                    y as int,
                    width as int,
                    height as int,
                    r,
                    c,
                ) {
                    EMPTY
                } else {
                    old(self).grid().tile(r, c)
                },
    {
        let ghost g0 = self.grid;
        let mut current_y: usize = 0;
        while current_y < height
            invariant
                current_y <= height,
                self.wf(),
                self.grid.width == g0.width,
                self.grid.height == g0.height,
                x + width <= g0.width,
                y + height <= g0.height,
                forall|r: int, c: int| #[trigger]
                    self.grid.in_bounds(r, c) ==> self.grid.tile(r, c) == if in_rect(
                        x as int,
                        y as int,
                        width as int,
                        current_y as int,
                        r,
                        c,
                    ) {
                        EMPTY
                    } else {
                        g0.tile(r, c)
                    },
            decreases height - current_y,
        {
            let ghost prev = self.grid;
            self.paint_line(x, y + current_y, false, width, EMPTY);
            assert forall|r: int, c: int| #[trigger]
                self.grid.in_bounds(r, c) implies self.grid.tile(r, c) == if in_rect(
                x as int,
                y as int,
                width as int,
                current_y + 1,
                r,
                c,
            ) {
                EMPTY
            } else {
                g0.tile(r, c)
            } by {
                assert(prev.in_bounds(r, c));
            }
            current_y = current_y + 1;
        }
    }

    /// Empties the cell at `(x, y)`.
    pub fn clear(&mut self, x: usize, y: usize)
        requires
            old(self).wf(),
            old(self).grid().in_bounds(y as int, x as int),
        ensures
            final(self).wf(),
            final(self).grid().width == old(self).grid().width,
            final(self).grid().height == old(self).grid().height,
            forall|r: int, c: int| #[trigger]
                final(self).grid().in_bounds(r, c) ==> final(self).grid().tile(r, c) == if r == y
                    && c == x {
                    EMPTY
                } else {
                    old(self).grid().tile(r, c)
                },
    {
        self.grid.set(y, x, EMPTY);
    }

    /// An independent copy of the grid built so far.
    pub fn build(&self) -> (g: TileGrid)
        requires
            self.wf(),
        ensures
            g.wf(),
            g.width == self.grid().width,
            g.height == self.grid().height,
            g.cells@ == self.grid().cells@,
    {
        let n: usize = self.grid.cells.len();
        let mut cells: Vec<usize> = Vec::with_capacity(n);
        let mut i: usize = 0;
        while i < n
            invariant
                i <= n,
                n == self.grid.cells@.len(),
                cells@ == self.grid.cells@.subrange(0, i as int),
            decreases n - i,
        {
            cells.push(self.grid.cells[i]);
            i = i + 1;
        }
        assert(cells@ == self.grid.cells@);
        TileGrid { width: self.grid.width, height: self.grid.height, cells }
    }
}

/// A builder for a `width * height` grid with every cell set to `fill`.
pub fn new_builder(width: usize, height: usize, fill: usize) -> (b: MapBuilder)
    requires
        width * height <= usize::MAX,
    ensures
        b.wf(),
        b.grid().width == width,
        b.grid().height == height,
        forall|r: int, c: int| #[trigger] b.grid().in_bounds(r, c) ==> b.grid().tile(r, c) == fill,
{
    MapBuilder { grid: TileGrid::filled(width, height, fill) }
}

/// A builder for a `width * height` grid of empty cells.
pub fn new_builder_with_size(width: usize, height: usize) -> (b: MapBuilder)
    requires
        width * height <= usize::MAX,
    ensures
        b.wf(),
        b.grid().width == width,
        b.grid().height == height,
        forall|r: int, c: int| #[trigger] b.grid().in_bounds(r, c) ==> b.grid().tile(r, c) == EMPTY,
{
    new_builder(width, height, EMPTY)
}

} // verus!
