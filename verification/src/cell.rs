use vstd::prelude::*;

verus! {

/// A single grid slot: alive/dead state, its (column, row) position, and the
/// precomputed linear indices of its eight toroidal neighbours, in the fixed
/// order [north, south, east, west, north-west, north-east, south-west,
/// south-east].
#[derive(Clone, Copy)]
pub struct Cell {
    pub alive: bool,
    pub coords: [usize; 2],
    pub neighbours: [usize; 8],
}

/// Leftmost linear index of the row holding `cell`.
pub open spec fn row_first(cell: int, width: int) -> int {
    (cell / width) * width
}

/// Rightmost linear index of the row holding `cell`.
pub open spec fn row_last(cell: int, width: int) -> int {
    row_first(cell, width) + width - 1
}

/// North neighbour: row 0 wraps to the last row.
pub open spec fn north_of(cell: int, width: int, height: int) -> int {
    if cell - width < 0 {
        width * height - width + cell
    } else {
        cell - width
    }
}

/// South neighbour: the last row wraps to row 0, same column.
pub open spec fn south_of(cell: int, width: int, height: int) -> int {
    if cell + width >= width * height {
        cell - row_first(cell, width)
    } else {
        cell + width
    }
}

/// East neighbour: the rightmost column wraps to the start of its own row.
pub open spec fn east_of(cell: int, width: int, height: int) -> int {
    if cell % width == width - 1 {
        row_first(cell, width)
    } else {
        cell + 1
    }
}

/// West neighbour: the leftmost column wraps to the end of its own row.
pub open spec fn west_of(cell: int, width: int, height: int) -> int {
    if cell % width == 0 {
        row_last(cell, width)
    } else {
        cell - 1
    }
}

/// North-east neighbour, with the corner rules of the engine: the top-right
/// corner takes the first cell of the last row; the bottom-right corner and
/// the rest of the right edge take the cell one row above their row start.
pub open spec fn north_east_of(cell: int, width: int, height: int) -> int {
    if cell % width == width - 1 {
        if cell == width - 1 {
            width * height - width
        } else if cell == width * height - 1 {
            row_first(cell, width) - width
        } else {
            row_first(cell, width) - width
        }
    } else {
        north_of(cell, width, height) + 1
    }
}

/// South-east neighbour: the bottom-right corner wraps to cell 0; the rest of
/// the right edge takes the cell one row below its row start.
pub open spec fn south_east_of(cell: int, width: int, height: int) -> int {
    if cell % width == width - 1 {
        if cell == width - 1 {
            row_first(cell, width) + width
        } else if cell == width * height - 1 {
            0
        } else {
            row_first(cell, width) + width
        }
    } else {
        south_of(cell, width, height) + 1
    }
}

/// North-west neighbour: the top-left corner wraps to the very last cell; the
/// rest of the left edge takes the cell just before it.
pub open spec fn north_west_of(cell: int, width: int, height: int) -> int {
    if cell % width == 0 {
        if cell == width * height - width {
            cell - 1
        } else if cell == 0 {
            width * height - 1
        } else {
            cell - 1
        }
    } else {
        north_of(cell, width, height) - 1
    }
}

/// South-west neighbour: the bottom-left corner wraps to the last cell of row
/// 0; the rest of the left edge takes the cell one row below its row end.
pub open spec fn south_west_of(cell: int, width: int, height: int) -> int {
    if cell % width == 0 {
        if cell == width * height - width {
            width - 1
        } else if cell == 0 {
            row_last(cell, width) + width
        } else {
            row_last(cell, width) + width
        }
    } else {
        south_of(cell, width, height) - 1
    }
}

/// The eight neighbour indices of `cell`, in the engine's fixed order.
pub open spec fn neighbours_of(cell: int, width: int, height: int) -> Seq<int> {
    seq![
        north_of(cell, width, height),
        south_of(cell, width, height),
        east_of(cell, width, height),
        west_of(cell, width, height),
        north_west_of(cell, width, height),
        north_east_of(cell, width, height),
        south_west_of(cell, width, height),
        south_east_of(cell, width, height),
    ]
}

/// Column one step left on a ring of `m` positions.
pub open spec fn wrap_dec(v: int, m: int) -> int {
    if v == 0 {
        m - 1
    } else {
        v - 1
    }
}

/// Column one step right on a ring of `m` positions.
pub open spec fn wrap_inc(v: int, m: int) -> int {
    if v == m - 1 {
        0
    } else {
        v + 1
    }
}

/// Linear index of the cell in column `x`, row `y`, of a grid `width` wide.
pub open spec fn index_at(x: int, y: int, width: int) -> int {
    y * width + x
}

/// The eight neighbours of the cell at column `x`, row `y`, read off the
/// torus directly: each coordinate steps by one and wraps at the edges.
pub open spec fn torus_neighbours(x: int, y: int, width: int, height: int) -> Seq<int> {
    seq![
        index_at(x, wrap_dec(y, height), width),
        index_at(x, wrap_inc(y, height), width),
        index_at(wrap_inc(x, width), y, width),
        index_at(wrap_dec(x, width), y, width),
        index_at(wrap_dec(x, width), wrap_dec(y, height), width),
        index_at(wrap_inc(x, width), wrap_dec(y, height), width),
        index_at(wrap_dec(x, width), wrap_inc(y, height), width),
        index_at(wrap_inc(x, width), wrap_inc(y, height), width),
    ]
}

/// The (column, row) position of a linear index is given by mod and div:
/// the index splits as row * width + column.
pub proof fn lemma_grid_coords(cell: int, width: int, height: int)
    requires
        1 <= width,
        1 <= height,
        0 <= cell < width * height,
    ensures
        cell == (cell / width) * width + (cell % width),
        0 <= cell % width < width,
        0 <= cell / width < height,
{
    vstd::arithmetic::div_mod::lemma_fundamental_div_mod(cell, width);
    vstd::arithmetic::div_mod::lemma_mod_pos_bound(cell, width);
    vstd::arithmetic::div_mod::lemma_div_pos_is_pos(cell, width);
    vstd::arithmetic::mul::lemma_mul_is_commutative(width, cell / width);
    assert(cell / width < height) by (nonlinear_arith)
        requires
            cell == width * (cell / width) + (cell % width),
            0 <= cell % width,
            cell < width * height,
            0 <= cell / width,
            1 <= width,
    ;
}

/// A (column, row) pair within the grid's bounds maps to an index within the
/// grid, and mod and div recover the pair from it.
pub proof fn lemma_coords_to_index(x: int, y: int, width: int, height: int)
    requires
        0 <= x < width,
        0 <= y < height,
    ensures
        0 <= index_at(x, y, width) < width * height,
        index_at(x, y, width) % width == x,
        index_at(x, y, width) / width == y,
{
    assert(0 <= y * width + x < width * height) by (nonlinear_arith)
        requires
            0 <= x < width,
            0 <= y < height,
    ;
    vstd::arithmetic::div_mod::lemma_fundamental_div_mod_converse(y * width + x, width, y, x);
}

/// The engine's neighbour formulas agree, cell by cell, with stepping each
/// coordinate once around the torus.
pub proof fn lemma_neighbours_torus(cell: int, width: int, height: int)
    requires
        1 <= width,
        2 <= height,
        0 <= cell < width * height,
    ensures
        neighbours_of(cell, width, height) =~= torus_neighbours(
            cell % width,
            cell / width,
            width,
            height,
        ),
{
    let x = cell % width;
    let y = cell / width;
    lemma_grid_coords(cell, width, height);
    assert((cell < width) <==> (y == 0)) by (nonlinear_arith)
        requires
            cell == y * width + x,
            0 <= x < width,
            0 <= y,
            1 <= width,
    ;
    assert((cell + width >= width * height) <==> (y == height - 1)) by (nonlinear_arith)
        requires
            cell == y * width + x,
            0 <= x < width,
            0 <= y < height,
            1 <= width,
    ;
    assert((cell == width - 1) <==> (x == width - 1 && y == 0)) by (nonlinear_arith)
        requires
            cell == y * width + x,
            0 <= x < width,
            0 <= y,
            1 <= width,
    ;
    assert((cell == width * height - 1) <==> (x == width - 1 && y == height - 1))
        by (nonlinear_arith)
        requires
            cell == y * width + x,
            0 <= x < width,
            0 <= y < height,
            1 <= width,
    ;
    assert((cell == width * height - width) <==> (x == 0 && y == height - 1))
        by (nonlinear_arith)
        requires
            cell == y * width + x,
            0 <= x < width,
            0 <= y < height,
            1 <= width,
    ;
    assert((cell == 0) <==> (x == 0 && y == 0)) by (nonlinear_arith)
        requires
            cell == y * width + x,
            0 <= x < width,
            0 <= y,
            1 <= width,
    ;
    assert(row_first(cell, width) == y * width);

    // North.
    let nn = north_of(cell, width, height);
    if y == 0 {
        assert(width * height - width + cell == (height - 1) * width + x) by (nonlinear_arith)
            requires
                cell == y * width + x,
                y == 0,
        ;
        assert(nn == index_at(x, wrap_dec(y, height), width));
    } else {
        assert(cell - width == (y - 1) * width + x) by (nonlinear_arith)
            requires
                cell == y * width + x,
        ;
        assert(nn == index_at(x, wrap_dec(y, height), width));
    }

    // South.
    let ss = south_of(cell, width, height);
    if y == height - 1 {
        assert(ss == cell - y * width);
        assert(ss == index_at(x, wrap_inc(y, height), width));
    } else {
        assert(cell + width == (y + 1) * width + x) by (nonlinear_arith)
            requires
                cell == y * width + x,
        ;
        assert(ss == index_at(x, wrap_inc(y, height), width));
    }

    // East and west are within the same row.
    assert(east_of(cell, width, height) == index_at(wrap_inc(x, width), y, width));
    assert(west_of(cell, width, height) == index_at(wrap_dec(x, width), y, width));

    // North-east.
    let ne = north_east_of(cell, width, height);
    if x == width - 1 {
        if y == 0 {
            assert(width * height - width == (height - 1) * width + 0) by (nonlinear_arith);
            assert(ne == index_at(wrap_inc(x, width), wrap_dec(y, height), width));
        } else {
            assert(y * width - width == (y - 1) * width + 0) by (nonlinear_arith);
            assert(ne == index_at(wrap_inc(x, width), wrap_dec(y, height), width));
        }
    } else {
        assert(ne == nn + 1);
        assert(ne == index_at(wrap_inc(x, width), wrap_dec(y, height), width));
    }

    // South-east.
    let se = south_east_of(cell, width, height);
    if x == width - 1 {
        if y == height - 1 {
            assert(se == index_at(wrap_inc(x, width), wrap_inc(y, height), width));
        } else {
            assert(y * width + width == (y + 1) * width + 0) by (nonlinear_arith);
            assert(se == index_at(wrap_inc(x, width), wrap_inc(y, height), width));
        }
    } else {
        assert(se == ss + 1);
        assert(se == index_at(wrap_inc(x, width), wrap_inc(y, height), width));
    }

    // North-west.
    let nw = north_west_of(cell, width, height);
    if x == 0 {
        if y == height - 1 {
            assert(cell - 1 == (y - 1) * width + (width - 1)) by (nonlinear_arith)
                requires
                    cell == y * width + x,
                    x == 0,
                    1 <= width,
            ;
            assert(nw == index_at(wrap_dec(x, width), wrap_dec(y, height), width));
        } else if y == 0 {
            assert(width * height - 1 == (height - 1) * width + (width - 1)) by (nonlinear_arith);
            assert(nw == index_at(wrap_dec(x, width), wrap_dec(y, height), width));
        } else {
            assert(cell - 1 == (y - 1) * width + (width - 1)) by (nonlinear_arith)
                requires
                    cell == y * width + x,
                    x == 0,
                    1 <= width,
            ;
            assert(nw == index_at(wrap_dec(x, width), wrap_dec(y, height), width));
        }
    } else {
        assert(nw == nn - 1);
        assert(nw == index_at(wrap_dec(x, width), wrap_dec(y, height), width));
    }

    // South-west.
    let sw = south_west_of(cell, width, height);
    if x == 0 {
        if y == height - 1 {
            assert(sw == index_at(wrap_dec(x, width), wrap_inc(y, height), width));
        } else {
            assert(y * width + width - 1 + width == (y + 1) * width + (width - 1))
                by (nonlinear_arith);
            assert(sw == row_last(cell, width) + width);
            assert(sw == index_at(wrap_dec(x, width), wrap_inc(y, height), width));
        }
    } else {
        assert(sw == ss - 1);
        assert(sw == index_at(wrap_dec(x, width), wrap_inc(y, height), width));
    }
}

/// Every neighbour index of a cell within the grid lies within the grid.
pub proof fn lemma_neighbours_in_range(cell: int, width: int, height: int)
    requires
        1 <= width,
        2 <= height,
        0 <= cell < width * height,
    ensures
        forall|k: int|
            0 <= k < 8 ==> 0 <= #[trigger] neighbours_of(cell, width, height)[k] < width
                * height,
{
    lemma_neighbours_torus(cell, width, height);
    let x = cell % width;
    let y = cell / width;
    lemma_grid_coords(cell, width, height);
    assert(0 <= wrap_dec(x, width) < width);
    assert(0 <= wrap_inc(x, width) < width);
    assert(0 <= wrap_dec(y, height) < height);
    assert(0 <= wrap_inc(y, height) < height);
    lemma_coords_to_index(x, wrap_dec(y, height), width, height);
    lemma_coords_to_index(x, wrap_inc(y, height), width, height);
    lemma_coords_to_index(wrap_inc(x, width), y, width, height);
    lemma_coords_to_index(wrap_dec(x, width), y, width, height);
    lemma_coords_to_index(wrap_dec(x, width), wrap_dec(y, height), width, height);
    lemma_coords_to_index(wrap_inc(x, width), wrap_dec(y, height), width, height);
    lemma_coords_to_index(wrap_dec(x, width), wrap_inc(y, height), width, height);
    lemma_coords_to_index(wrap_inc(x, width), wrap_inc(y, height), width, height);
}

/// A cell whose coordinates and neighbour list agree with its linear index
/// `i` in a grid `width` wide and `height` tall.
pub open spec fn cell_set_up(c: Cell, i: int, width: int, height: int) -> bool {
    &&& c.coords@[0] as int == i % width
    &&& c.coords@[1] as int == i / width
    &&& forall|k: int| 0 <= k < 8 ==> c.neighbours@[k] as int == neighbours_of(
        i,
        width,
        height,
    )[k]
    &&& forall|k: int| 0 <= k < 8 ==> (c.neighbours@[k] as int) < width * height
}

/// A zero-valued cell: dead, at the origin, with every neighbour slot 0.
pub open spec fn zero_cell(c: Cell) -> bool {
    &&& !c.alive
    &&& c.coords@ =~= seq![0usize, 0usize]
    &&& c.neighbours@ =~= seq![0usize, 0usize, 0usize, 0usize, 0usize, 0usize, 0usize, 0usize]
}

impl Cell {
    /// A zero-valued cell: dead, at the origin, with all neighbour slots 0.
    pub fn new() -> (c: Cell)
        ensures
            zero_cell(c),
    {
        Cell { alive: false, coords: [0; 2], neighbours: [0; 8] }
    }

    /// Flips the cell's life state and touches nothing else.
    pub fn toggle_life(&mut self)
        ensures
            final(self).alive == !old(self).alive,
            final(self).coords == old(self).coords,
            final(self).neighbours == old(self).neighbours,
    {
        self.alive = !self.alive;
    }

    /// (column, row) of the cell with linear index `n` in a grid `w` wide.
    pub fn get_coords(&self, n: usize, w: usize) -> (r: [usize; 2])
        requires
            1 <= w,
        ensures
            r@[0] as int == n as int % w as int,
            r@[1] as int == n as int / w as int,
    {
        [n % w, n / w]
    }

    /// The eight toroidal neighbour indices of `cell` in a grid `width` wide
    /// and `height` tall, in the order [north, south, east, west,
    /// north-west, north-east, south-west, south-east].
    pub fn get_neighbours(&self, cell: usize, width: usize, height: usize) -> (r: [usize; 8])
        requires
            1 <= width,
            2 <= height,
            cell < width * height,
            width * height <= usize::MAX,
        ensures
            forall|k: int|
                0 <= k < 8 ==> #[trigger] r@[k] as int == neighbours_of(
                    cell as int,
                    width as int,
                    height as int,
                )[k],
    {
        let ghost c: int = cell as int;
        let ghost w: int = width as int;
        let ghost h: int = height as int;
        let ghost gx: int = c % w;
        let ghost gy: int = c / w;
        proof {
            lemma_grid_coords(c, w, h);
            assert((c < w) <==> (gy == 0)) by (nonlinear_arith)
                requires
                    c == gy * w + gx,
                    0 <= gx < w,
                    0 <= gy,
                    1 <= w,
            ;
            assert((c + w >= w * h) <==> (gy == h - 1)) by (nonlinear_arith)
                requires
                    c == gy * w + gx,
                    0 <= gx < w,
                    0 <= gy < h,
                    1 <= w,
            ;
            assert((c == w - 1) <==> (gx == w - 1 && gy == 0)) by (nonlinear_arith)
                requires
                    c == gy * w + gx,
                    0 <= gx < w,
                    0 <= gy,
                    1 <= w,
            ;
            assert((c == w * h - 1) <==> (gx == w - 1 && gy == h - 1)) by (nonlinear_arith)
                requires
                    c == gy * w + gx,
                    0 <= gx < w,
                    0 <= gy < h,
                    1 <= w,
            ;
            assert((c == w * h - w) <==> (gx == 0 && gy == h - 1)) by (nonlinear_arith)
                requires
                    c == gy * w + gx,
                    0 <= gx < w,
                    0 <= gy < h,
                    1 <= w,
            ;
            assert((c == 0) <==> (gx == 0 && gy == 0)) by (nonlinear_arith)
                requires
                    c == gy * w + gx,
                    0 <= gx < w,
                    0 <= gy,
                    1 <= w,
            ;
        }

        // Total cells.
        let size: usize = width * height;

        // Row bounds and shared offsets.
        let lc: usize = (cell / width) * width;
        proof {
            assert(lc == gy * w);
            assert(gy * w + w <= w * h) by (nonlinear_arith)
                requires
                    0 <= gy < h,
                    1 <= w,
            ;
        }
        let rc: usize = (lc + width) - 1;
        let size_minus_width: usize = size - width;
        let cell_mod_width: usize = cell % width;
        let top_right: usize = width - 1;
        let bottom_right: usize = size - 1;

        // North: the top row wraps to the bottom row.
        let north: usize;
        if cell < width {
            north = size_minus_width + cell;
        } else {
            north = cell - width;
        }
        proof {
            if gy >= 1 {
                assert(c - w == (gy - 1) * w + gx) by (nonlinear_arith)
                    requires
                        c == gy * w + gx,
                ;
            }
            assert(north as int == north_of(c, w, h));
        }

        // South: the bottom row wraps to the top row.
        let south: usize;
        if cell >= size_minus_width {
            south = cell - lc;
        } else {
            south = cell + width;
        }
        proof {
            assert(south as int == south_of(c, w, h));
        }

        // East, north-east, south-east.
        let east: usize;
        let north_east: usize;
        let south_east: usize;
        if cell_mod_width == top_right {
            east = lc;
            if cell == top_right {
                north_east = size_minus_width;
                south_east = lc + width;
            } else if cell == bottom_right {
                proof {
                    assert(gy * w >= w) by (nonlinear_arith)
                        requires
                            gy >= 1,
                            w >= 1,
                    ;
                }
                north_east = lc - width;
                south_east = 0;
            } else {
                proof {
                    assert(gy >= 1);
                    assert(gy * w >= w) by (nonlinear_arith)
                        requires
                            gy >= 1,
                            w >= 1,
                    ;
                }
                north_east = lc - width;
                south_east = lc + width;
            }
        } else {
            east = cell + 1;
            north_east = north + 1;
            south_east = south + 1;
        }
        proof {
            assert(east as int == east_of(c, w, h));
            assert(north_east as int == north_east_of(c, w, h));
            assert(south_east as int == south_east_of(c, w, h));
        }

        // West, north-west, south-west.
        let west: usize;
        let north_west: usize;
        let south_west: usize;
        if cell_mod_width == 0 {
            west = rc;
            if cell == size_minus_width {
                proof {
                    assert(w * h >= 2 * w) by (nonlinear_arith)
                        requires
                            h >= 2,
                            w >= 1,
                    ;
                }
                north_west = cell - 1;
                south_west = top_right;
            } else if cell == 0 {
                proof {
                    assert(w * h >= 2 * w) by (nonlinear_arith)
                        requires
                            h >= 2,
                            w >= 1,
                    ;
                }
                north_west = bottom_right;
                south_west = rc + width;
            } else {
                proof {
                    assert(gy >= 1 && gy <= h - 2);
                    assert((gy + 2) * w <= h * w) by (nonlinear_arith)
                        requires
                            gy <= h - 2,
                            w >= 1,
                    ;
                    assert(gy * w + 2 * w == (gy + 2) * w) by (nonlinear_arith);
                    assert(h * w == w * h) by (nonlinear_arith);
                }
                north_west = cell - 1;
                south_west = rc + width;
            }
        } else {
            proof {
                if gy >= 1 {
                    assert((gy - 1) * w >= 0) by (nonlinear_arith)
                        requires
                            gy >= 1,
                            w >= 1,
                    ;
                    assert(c - w == (gy - 1) * w + gx) by (nonlinear_arith)
                        requires
                            c == gy * w + gx,
                    ;
                }
            }
            west = cell - 1;
            north_west = north - 1;
            south_west = south - 1;
        }
        proof {
            assert(west as int == west_of(c, w, h));
            assert(north_west as int == north_west_of(c, w, h));
            assert(south_west as int == south_west_of(c, w, h));
        }

        let r: [usize; 8] = [
            north,
            south,
            east,
            west,
            north_west,
            north_east,
            south_west,
            south_east,
        ];
        r
    }

    /// Resets the cell to dead and derives its coordinates and neighbour
    /// list from its linear index and the grid's dimensions.
    pub fn init(&mut self, cell: usize, width: usize, height: usize)
        requires
            1 <= width,
            2 <= height,
            cell < width * height,
            width * height <= usize::MAX,
        ensures
            !final(self).alive,
            cell_set_up(*final(self), cell as int, width as int, height as int),
    {
        self.alive = false;
        self.coords = self.get_coords(cell, width);
        self.neighbours = self.get_neighbours(cell, width, height);
        proof {
            lemma_neighbours_in_range(cell as int, width as int, height as int);
        }
    }
}

} // verus!
