use vstd::prelude::*;

use crate::cell::east_of;
use crate::cell::index_at;
use crate::cell::lemma_coords_to_index;
use crate::cell::lemma_grid_coords;
use crate::cell::lemma_neighbours_in_range;
use crate::cell::lemma_neighbours_torus;
use crate::cell::neighbours_of;
use crate::cell::north_east_of;
use crate::cell::north_of;
use crate::cell::north_west_of;
use crate::cell::south_east_of;
use crate::cell::south_of;
use crate::cell::south_west_of;
use crate::cell::west_of;
use crate::cell::wrap_dec;
use crate::cell::wrap_inc;
use crate::game::Game;
use crate::game::live_neighbours;
use crate::game::next_alive;
use crate::game::painted;

verus! {

/// Law: on a grid more than two cells wide and more than two cells tall,
/// the eight neighbour indices of any cell all lie within the grid and are
/// pairwise distinct. (At width or height exactly two, opposite directions
/// reach the same cell and the indices coincide.)
pub proof fn lemma_neighbours_distinct(cell: int, width: int, height: int)
    requires
        2 < width,
        2 < height,
        0 <= cell < width * height,
    ensures
        forall|k: int|
            0 <= k < 8 ==> 0 <= #[trigger] neighbours_of(cell, width, height)[k] < width * height,
        forall|k1: int, k2: int|
            0 <= k1 < 8 && 0 <= k2 < 8 && k1 != k2 ==> #[trigger] neighbours_of(
                cell,
                width,
                height,
            )[k1] != #[trigger] neighbours_of(cell, width, height)[k2],
{
    lemma_neighbours_in_range(cell, width, height);
    lemma_neighbours_torus(cell, width, height);
    lemma_grid_coords(cell, width, height);
    let x = cell % width;
    let y = cell / width;
    assert(wrap_dec(x, width) != x && wrap_inc(x, width) != x && wrap_dec(x, width) != wrap_inc(
        x,
        width,
    ));
    assert(wrap_dec(y, height) != y && wrap_inc(y, height) != y && wrap_dec(y, height) != wrap_inc(
        y,
        height,
    ));
    lemma_coords_to_index(x, wrap_dec(y, height), width, height);
    lemma_coords_to_index(x, wrap_inc(y, height), width, height);
    lemma_coords_to_index(wrap_inc(x, width), y, width, height);
    lemma_coords_to_index(wrap_dec(x, width), y, width, height);
    lemma_coords_to_index(wrap_dec(x, width), wrap_dec(y, height), width, height);
    lemma_coords_to_index(wrap_inc(x, width), wrap_dec(y, height), width, height);
    lemma_coords_to_index(wrap_dec(x, width), wrap_inc(y, height), width, height);
    lemma_coords_to_index(wrap_inc(x, width), wrap_inc(y, height), width, height);
}

/// Law: the neighbour relation is symmetric on the torus: every cell is the
/// south neighbour of its north neighbour, the west neighbour of its east
/// neighbour, and so on for each diagonal and its opposite.
pub proof fn lemma_neighbours_symmetric(cell: int, width: int, height: int)
    requires
        1 < width,
        1 < height,
        0 <= cell < width * height,
    ensures
        south_of(north_of(cell, width, height), width, height) == cell,
        north_of(south_of(cell, width, height), width, height) == cell,
        west_of(east_of(cell, width, height), width, height) == cell,
        east_of(west_of(cell, width, height), width, height) == cell,
        south_west_of(north_east_of(cell, width, height), width, height) == cell,
        north_east_of(south_west_of(cell, width, height), width, height) == cell,
        south_east_of(north_west_of(cell, width, height), width, height) == cell,
        north_west_of(south_east_of(cell, width, height), width, height) == cell,
{
    lemma_grid_coords(cell, width, height);
    lemma_neighbours_torus(cell, width, height);
    let x = cell % width;
    let y = cell / width;
    let xs = seq![wrap_dec(x, width), x, wrap_inc(x, width)];
    let ys = seq![wrap_dec(y, height), y, wrap_inc(y, height)];
    assert forall|a: int, b: int| #![trigger xs[a], ys[b]] 0 <= a < 3 && 0 <= b < 3 implies {
        let j = index_at(xs[a], ys[b], width);
        &&& 0 <= j < width * height
        &&& j % width == xs[a]
        &&& j / width == ys[b]
    } by {
        lemma_coords_to_index(xs[a], ys[b], width, height);
    };
    assert forall|a: int, b: int| #![trigger xs[a], ys[b]] 0 <= a < 3 && 0 <= b < 3 implies neighbours_of(
        index_at(xs[a], ys[b], width),
        width,
        height,
    ) =~= crate::cell::torus_neighbours(xs[a], ys[b], width, height) by {
        lemma_coords_to_index(xs[a], ys[b], width, height);
        lemma_neighbours_torus(index_at(xs[a], ys[b], width), width, height);
    };
    assert(wrap_inc(wrap_dec(y, height), height) == y);
    assert(wrap_dec(wrap_inc(y, height), height) == y);
    assert(wrap_inc(wrap_dec(x, width), width) == x);
    assert(wrap_dec(wrap_inc(x, width), width) == x);
    assert(index_at(x, y, width) == cell);
}

/// Law: stepping an all-dead grid yields an all-dead grid.
pub proof fn lemma_all_dead_stays_dead(g: Game)
    requires
        g.initialized(),
        forall|i: int| 0 <= i < g.size ==> !(#[trigger] g.grid@[i]).alive,
    ensures
        forall|i: int| 0 <= i < g.size ==> !next_alive(g.grid@, i),
{
    assert forall|i: int| 0 <= i < g.size implies !next_alive(g.grid@, i) by {
        let nb = g.grid@[i].neighbours@;
        assert(live_neighbours(g.grid@, nb) == 0);
    };
}

/// Law: a live cell all of whose neighbours are dead dies after one step.
pub proof fn lemma_lonely_cell_dies(g: Game, i: int)
    requires
        g.initialized(),
        0 <= i < g.size,
        g.grid@[i].alive,
        forall|k: int|
            0 <= k < 8 ==> !g.grid@[#[trigger] (g.grid@[i].neighbours@[k]) as int].alive,
    ensures
        !next_alive(g.grid@, i),
{
    let nb = g.grid@[i].neighbours@;
    assert(live_neighbours(g.grid@, nb) == 0);
}

/// Whether index `i` is one of the four cells of the 2-by-2 block whose
/// top-left corner sits at column `x`, row `y`; the block may wrap around
/// either edge of the torus.
pub open spec fn in_block(i: int, x: int, y: int, width: int, height: int) -> bool {
    ||| i == index_at(x, y, width)
    ||| i == index_at(wrap_inc(x, width), y, width)
    ||| i == index_at(x, wrap_inc(y, height), width)
    ||| i == index_at(wrap_inc(x, width), wrap_inc(y, height), width)
}

/// An index within the grid belongs to the block exactly when its column
/// and row land on the block's two columns and two rows.
proof fn lemma_block_membership(j: int, a: int, b: int, x: int, y: int, width: int, height: int)
    requires
        0 <= a < width,
        0 <= b < height,
        0 <= x < width,
        0 <= y < height,
        j == index_at(a, b, width),
    ensures
        in_block(j, x, y, width, height) <==> ((a == x || a == wrap_inc(x, width)) && (b == y || b
            == wrap_inc(y, height))),
{
    lemma_coords_to_index(a, b, width, height);
    lemma_coords_to_index(x, y, width, height);
    lemma_coords_to_index(wrap_inc(x, width), y, width, height);
    lemma_coords_to_index(x, wrap_inc(y, height), width, height);
    lemma_coords_to_index(wrap_inc(x, width), wrap_inc(y, height), width, height);
}

/// Law: a 2-by-2 block of live cells on an otherwise dead grid at least
/// four cells wide and four tall - large enough that the block's
/// neighbourhood cannot overlap itself around the torus - is a still life:
/// each block cell keeps exactly three live neighbours, no dead cell gains
/// three, and one step changes nothing.
#[verifier::rlimit(100)]
pub proof fn lemma_block_still_life(g: Game, x: int, y: int)
    requires
        g.initialized(),
        4 <= g.width,
        4 <= g.height,
        0 <= x < g.width,
        0 <= y < g.height,
        forall|i: int|
            0 <= i < g.size ==> ((#[trigger] g.grid@[i]).alive <==> in_block(
                i,
                x,
                y,
                g.width as int,
                g.height as int,
            )),
    ensures
        forall|i: int| 0 <= i < g.size ==> next_alive(g.grid@, i) == g.grid@[i].alive,
{
    let w = g.width as int;
    let h = g.height as int;
    let gg = g.grid@;
    let xb = wrap_inc(x, w);
    let yb = wrap_inc(y, h);
    assert forall|i: int| 0 <= i < g.size implies next_alive(gg, i) == gg[i].alive by {
        let u = i % w;
        let v = i / w;
        lemma_grid_coords(i, w, h);
        lemma_neighbours_torus(i, w, h);
        let nb = gg[i].neighbours@;
        let xl = wrap_dec(u, w);
        let xr = wrap_inc(u, w);
        let yu = wrap_dec(v, h);
        let yd = wrap_inc(v, h);
        lemma_coords_to_index(u, yu, w, h);
        lemma_coords_to_index(u, yd, w, h);
        lemma_coords_to_index(xr, v, w, h);
        lemma_coords_to_index(xl, v, w, h);
        lemma_coords_to_index(xl, yu, w, h);
        lemma_coords_to_index(xr, yu, w, h);
        lemma_coords_to_index(xl, yd, w, h);
        lemma_coords_to_index(xr, yd, w, h);
        assert(nb[0] as int == index_at(u, yu, w));
        assert(nb[1] as int == index_at(u, yd, w));
        assert(nb[2] as int == index_at(xr, v, w));
        assert(nb[3] as int == index_at(xl, v, w));
        assert(nb[4] as int == index_at(xl, yu, w));
        assert(nb[5] as int == index_at(xr, yu, w));
        assert(nb[6] as int == index_at(xl, yd, w));
        assert(nb[7] as int == index_at(xr, yd, w));
        lemma_block_membership(i, u, v, x, y, w, h);
        lemma_block_membership(nb[0] as int, u, yu, x, y, w, h);
        lemma_block_membership(nb[1] as int, u, yd, x, y, w, h);
        lemma_block_membership(nb[2] as int, xr, v, x, y, w, h);
        lemma_block_membership(nb[3] as int, xl, v, x, y, w, h);
        lemma_block_membership(nb[4] as int, xl, yu, x, y, w, h);
        lemma_block_membership(nb[5] as int, xr, yu, x, y, w, h);
        lemma_block_membership(nb[6] as int, xl, yd, x, y, w, h);
        lemma_block_membership(nb[7] as int, xr, yd, x, y, w, h);
        assert(gg[nb[0] as int].alive <==> ((u == x || u == xb) && (yu == y || yu == yb)));
        assert(gg[nb[1] as int].alive <==> ((u == x || u == xb) && (yd == y || yd == yb)));
        assert(gg[nb[2] as int].alive <==> ((xr == x || xr == xb) && (v == y || v == yb)));
        assert(gg[nb[3] as int].alive <==> ((xl == x || xl == xb) && (v == y || v == yb)));
        assert(gg[nb[4] as int].alive <==> ((xl == x || xl == xb) && (yu == y || yu == yb)));
        assert(gg[nb[5] as int].alive <==> ((xr == x || xr == xb) && (yu == y || yu == yb)));
        assert(gg[nb[6] as int].alive <==> ((xl == x || xl == xb) && (yd == y || yd == yb)));
        assert(gg[nb[7] as int].alive <==> ((xr == x || xr == xb) && (yd == y || yd == yb)));
        assert(gg[i].alive <==> ((u == x || u == xb) && (v == y || v == yb)));
        if (u == x || u == xb) && (v == y || v == yb) {
            assert(live_neighbours(gg, nb) == 3);
        } else {
            assert(live_neighbours(gg, nb) <= 2);
        }
    };
}

/// Law: painting the same cell twice returns every cell of the grid to its
/// original life state, and every grid field to its original value.
pub proof fn lemma_paint_round_trip(g0: Game, g1: Game, g2: Game, i: int)
    requires
        0 <= i < g0.grid@.len(),
        painted(g0, g1, i),
        painted(g1, g2, i),
    ensures
        forall|j: int|
            0 <= j < g0.grid@.len() ==> (#[trigger] g2.grid@[j]).alive == g0.grid@[j].alive,
        g2.width == g0.width,
        g2.height == g0.height,
        g2.scale == g0.scale,
        g2.size == g0.size,
        g2.paused == g0.paused,
        g2.grid@.len() == g0.grid@.len(),
{
    // Both paints touch the same index: its flag is negated twice, and the
    // frame conditions of `painted` carry every other cell across.
}

/// Law: painting at fixed coordinates is an involution. The index a point
/// maps to depends only on the scale and width, which painting preserves,
/// so two successful paints at the same point toggle the same cell and
/// return every cell's life state to its original value.
pub proof fn lemma_paint_round_trip_at(g0: Game, g1: Game, g2: Game, coords: [usize; 2])
    requires
        ({
            let i = (coords@[1] as int / g0.scale as int) * g0.width + coords@[0] as int
                / g0.scale as int;
            &&& 0 <= i < g0.grid@.len()
            &&& painted(g0, g1, i)
            &&& painted(
                g1,
                g2,
                (coords@[1] as int / g1.scale as int) * g1.width + coords@[0] as int
                    / g1.scale as int,
            )
        }),
    ensures
        forall|j: int|
            0 <= j < g0.grid@.len() ==> (#[trigger] g2.grid@[j]).alive == g0.grid@[j].alive,
        g2.width == g0.width,
        g2.height == g0.height,
        g2.scale == g0.scale,
        g2.size == g0.size,
        g2.paused == g0.paused,
        g2.grid@.len() == g0.grid@.len(),
{
    let i = (coords@[1] as int / g0.scale as int) * g0.width + coords@[0] as int / g0.scale as int;
    assert(g1.scale == g0.scale && g1.width == g0.width);
    lemma_paint_round_trip(g0, g1, g2, i);
}

} // verus!
