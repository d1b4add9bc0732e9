use vstd::prelude::*;

use crate::cell::Cell;
use crate::cell::cell_set_up;
use crate::cell::zero_cell;
use crate::imaging::image_dimensions;
use crate::imaging::image_dims;
use crate::imaging::image_pixel_at;
use crate::imaging::image_pixels;
use crate::imaging::is_white;

verus! {

/// The engine's recoverable error kinds: a paint coordinate outside the
/// grid, or a seeding image whose dimensions do not match the grid.
#[derive(Clone, Copy, Debug, PartialEq, Eq, Structural)]
pub enum GridError {
    OutOfRange,
    DimensionMismatch,
}

/// The grid and its simulation state: dimensions in cells, the pixel scale
/// used for coordinate mapping, the flat row-major cell sequence, and the
/// pause flag for an external driver.
pub struct Game {
    pub width: usize,
    pub height: usize,
    pub scale: usize,
    pub size: usize,
    pub grid: Vec<Cell>,
    pub paused: bool,
}

/// 1 if the cell at index `i` of `g` is alive, else 0.
pub open spec fn life_bit(g: Seq<Cell>, i: usize) -> int {
    if g[i as int].alive {
        1
    } else {
        0
    }
}

/// Live cells among the eight neighbour slots `nb`, each read from grid `g`.
pub open spec fn live_neighbours(g: Seq<Cell>, nb: Seq<usize>) -> int {
    life_bit(g, nb[0]) + life_bit(g, nb[1]) + life_bit(g, nb[2]) + life_bit(g, nb[3]) + life_bit(
        g,
        nb[4],
    ) + life_bit(g, nb[5]) + life_bit(g, nb[6]) + life_bit(g, nb[7])
}

/// The B3/S23 rule in the engine's precedence: a dead cell with exactly
/// three live neighbours is born; any cell with fewer than two or more than
/// three live neighbours dies; otherwise the cell carries its state over.
pub open spec fn step_rule(alive: bool, live: int) -> bool {
    if !alive && live == 3 {
        true
    } else if live < 2 || live > 3 {
        false
    } else {
        alive
    }
}

/// Life state of cell `i` in the generation after `g`.
pub open spec fn next_alive(g: Seq<Cell>, i: int) -> bool {
    step_rule(g[i].alive, live_neighbours(g, g[i].neighbours@))
}

/// `post` is `pre` with exactly the cell at index `i` toggled: every other
/// cell, the topology of cell `i`, and all grid fields carry over.
pub open spec fn painted(pre: Game, post: Game, i: int) -> bool {
    &&& post.width == pre.width
    &&& post.height == pre.height
    &&& post.scale == pre.scale
    &&& post.size == pre.size
    &&& post.paused == pre.paused
    &&& post.grid@.len() == pre.grid@.len()
    &&& post.grid@[i].alive == !pre.grid@[i].alive
    &&& post.grid@[i].coords == pre.grid@[i].coords
    &&& post.grid@[i].neighbours == pre.grid@[i].neighbours
    &&& forall|j: int| 0 <= j < pre.grid@.len() && j != i ==> #[trigger] post.grid@[j] == pre.grid@[j]
}

impl Game {
    /// The sizing invariant: the cell sequence holds exactly width * height
    /// slots and the scale is a positive number of pixels per cell edge.
    pub open spec fn wf(self) -> bool {
        &&& self.size == self.width * self.height
        &&& self.grid@.len() == self.size
        &&& 1 <= self.scale
    }

    /// A grid whose every cell carries the coordinates and neighbour list
    /// derived from its own index. A non-empty grid is at least two rows
    /// tall, which the neighbour formulas need to stay within bounds.
    pub open spec fn initialized(self) -> bool {
        &&& self.wf()
        &&& (self.size > 0 ==> 2 <= self.height)
        &&& forall|i: int|
            0 <= i < self.size ==> cell_set_up(
                #[trigger] self.grid@[i],
                i,
                self.width as int,
                self.height as int,
            )
    }

    /// A paused grid of `pixel_width / scale` by `pixel_height / scale`
    /// zero-valued dead cells.
    pub fn new(pixel_width: usize, pixel_height: usize, scale: usize) -> (g: Game)
        requires
            1 <= scale,
            (pixel_width as int / scale as int) * (pixel_height as int / scale as int)
                <= usize::MAX,
        ensures
            g.wf(),
            g.width as int == pixel_width as int / scale as int,
            g.height as int == pixel_height as int / scale as int,
            g.scale == scale,
            g.paused,
            forall|i: int| 0 <= i < g.size ==> zero_cell(#[trigger] g.grid@[i]),
    {
        let w: usize = pixel_width / scale;
        let h: usize = pixel_height / scale;
        let size: usize = w * h;
        let mut grid: Vec<Cell> = Vec::new();
        let mut i: usize = 0;
        while i < size
            invariant
                i <= size,
                grid@.len() == i,
                forall|j: int| 0 <= j < i ==> zero_cell(#[trigger] grid@[j]),
            decreases size - i,
        {
            grid.push(Cell::new());
            i = i + 1;
        }
        Game { width: w, height: h, scale, size, grid, paused: true }
    }

    /// Gives every cell the coordinates and neighbour list of its index,
    /// leaving the whole grid dead.
    pub fn init(&mut self)
        requires
            old(self).wf(),
            old(self).size > 0 ==> 2 <= old(self).height,
        ensures
            final(self).initialized(),
            final(self).width == old(self).width,
            final(self).height == old(self).height,
            final(self).scale == old(self).scale,
            final(self).size == old(self).size,
            final(self).paused == old(self).paused,
            forall|i: int| 0 <= i < final(self).size ==> !(#[trigger] final(self).grid@[i]).alive,
    {
        let mut c: usize = 0;
        while c < self.size
            invariant
                c <= self.size,
                self.wf(),
                self.width == old(self).width,
                self.height == old(self).height,
                self.scale == old(self).scale,
                self.size == old(self).size,
                self.paused == old(self).paused,
                self.size > 0 ==> 2 <= self.height,
                forall|j: int|
                    0 <= j < c ==> cell_set_up(
                        #[trigger] self.grid@[j],
                        j,
                        self.width as int,
                        self.height as int,
                    ),
                forall|j: int| 0 <= j < c ==> !(#[trigger] self.grid@[j]).alive,
            decreases self.size - c,
        {
            proof {
                assert(self.width >= 1 && self.height >= 1) by (nonlinear_arith)
                    requires
                        self.size == self.width * self.height,
                        self.size >= 1,
                ;
            }
            let mut cl = self.grid[c];
            cl.init(c, self.width, self.height);
            self.grid[c] = cl;
            c = c + 1;
        }
    }

    /// Flips whether automatic stepping is suppressed.
    pub fn toggle_pause(&mut self)
        ensures
            final(self).paused == !old(self).paused,
            final(self).width == old(self).width,
            final(self).height == old(self).height,
            final(self).scale == old(self).scale,
            final(self).size == old(self).size,
            final(self).grid == old(self).grid,
    {
        self.paused = !self.paused;
    }

    /// Number of live cells among the eight neighbours of cell `n`.
    pub fn count_neighbours(&self, n: usize) -> (count: u8)
        requires
            self.initialized(),
            n < self.size,
        ensures
            count as int == live_neighbours(self.grid@, self.grid@[n as int].neighbours@),
            count <= 8,
    {
        let cell = self.grid[n];
        let mut count: u8 = 0;
        if self.grid[cell.neighbours[0]].alive {
            count = count + 1;
        }
        if self.grid[cell.neighbours[1]].alive {
            count = count + 1;
        }
        if self.grid[cell.neighbours[2]].alive {
            count = count + 1;
        }
        if self.grid[cell.neighbours[3]].alive {
            count = count + 1;
        }
        if self.grid[cell.neighbours[4]].alive {
            count = count + 1;
        }
        if self.grid[cell.neighbours[5]].alive {
            count = count + 1;
        }
        if self.grid[cell.neighbours[6]].alive {
            count = count + 1;
        }
        if self.grid[cell.neighbours[7]].alive {
            count = count + 1;
        }
        count
    }

    /// One synchronous generation: every next state is computed from the
    /// frozen current grid, then the fresh grid replaces it in one step.
    /// Coordinates and neighbour lists are carried over unchanged.
    pub fn update(&mut self)
        requires
            old(self).initialized(),
        ensures
            final(self).initialized(),
            final(self).width == old(self).width,
            final(self).height == old(self).height,
            final(self).scale == old(self).scale,
            final(self).size == old(self).size,
            final(self).paused == old(self).paused,
            final(self).grid@.len() == old(self).grid@.len(),
            forall|i: int|
                0 <= i < old(self).size ==> {
                    let nc = #[trigger] final(self).grid@[i];
                    &&& nc.coords == old(self).grid@[i].coords
                    &&& nc.neighbours == old(self).grid@[i].neighbours
                    &&& nc.alive == next_alive(old(self).grid@, i)
                },
    {
        // Make the next grid from a frozen snapshot of the current one.
        let mut next: Vec<Cell> = Vec::new();
        let mut i: usize = 0;
        while i < self.size
            invariant
                *self == *old(self),
                self.initialized(),
                i <= self.size,
                next@.len() == i,
                forall|j: int|
                    0 <= j < i ==> {
                        let nc = #[trigger] next@[j];
                        &&& nc.coords == self.grid@[j].coords
                        &&& nc.neighbours == self.grid@[j].neighbours
                        &&& nc.alive == next_alive(self.grid@, j)
                    },
            decreases self.size - i,
        {
            let cell = self.grid[i];
            let alive = cell.alive;
            let neighbours = self.count_neighbours(i);
            let mut nc = cell;
            if !alive && neighbours == 3 {
                nc.alive = true;
            } else if neighbours < 2 || neighbours > 3 {
                nc.alive = false;
            }
            next.push(nc);
            i = i + 1;
        }
        // Recycle the grid: the new generation becomes visible in one step.
        self.grid = next;
    }

    /// Maps pixel coordinates to the linear index of the cell under them:
    /// floor division by the scale in each axis, then row-major indexing.
    /// The input layer keeps the point on the canvas.
    pub fn get_cell(&self, coords: [usize; 2]) -> (index: usize)
        requires
            self.wf(),
            (coords@[0] as int / self.scale as int) < self.width,
            (coords@[1] as int / self.scale as int) < self.height,
        ensures
            index as int == (coords@[1] as int / self.scale as int) * self.width + coords@[0] as int
                / self.scale as int,
            index < self.size,
    {
        let x: usize = coords[0] / self.scale;
        let y: usize = coords[1] / self.scale;
        proof {
            assert(y * self.width + x < self.width * self.height) by (nonlinear_arith)
                requires
                    0 <= x < self.width,
                    0 <= y < self.height,
            ;
        }
        (y * self.width) + x
    }

    /// Toggles the life state of the cell under the given pixel
    /// coordinates. A point that maps outside the grid is rejected, and the
    /// grid is left unchanged.
    pub fn paint(&mut self, coords: [usize; 2]) -> (r: Result<(), GridError>)
        requires
            old(self).wf(),
        ensures
            ({
                let px = coords@[0] as int / old(self).scale as int;
                let py = coords@[1] as int / old(self).scale as int;
                &&& (r is Ok <==> px < old(self).width && py < old(self).height)
                &&& r is Ok ==> painted(*old(self), *final(self), py * old(self).width + px)
                &&& r is Err ==> *final(self) == *old(self) && r == Err::<(), GridError>(
                    GridError::OutOfRange,
                )
            }),
            final(self).wf(),
            old(self).initialized() ==> final(self).initialized(),
    {
        let x: usize = coords[0] / self.scale;
        let y: usize = coords[1] / self.scale;
        if x < self.width && y < self.height {
            let index = self.get_cell(coords);
            let mut cl = self.grid[index];
            cl.toggle_life();
            self.grid[index] = cl;
            Ok(())
        } else {
            Err(GridError::OutOfRange)
        }
    }

    /// Sets one cell's life state from a drawn value: alive exactly when
    /// the draw is even. Every other cell and field carries over.
    pub fn seed_cell(&mut self, index: usize, draw: usize)
        requires
            old(self).wf(),
            index < old(self).size,
        ensures
            final(self).wf(),
            final(self).width == old(self).width,
            final(self).height == old(self).height,
            final(self).scale == old(self).scale,
            final(self).size == old(self).size,
            final(self).paused == old(self).paused,
            final(self).grid@.len() == old(self).grid@.len(),
            final(self).grid@[index as int].alive == (draw % 2 == 0),
            final(self).grid@[index as int].coords == old(self).grid@[index as int].coords,
            final(self).grid@[index as int].neighbours == old(self).grid@[index as int].neighbours,
            forall|j: int|
                0 <= j < old(self).grid@.len() && j != index ==> #[trigger] final(self).grid@[j]
                    == old(self).grid@[j],
            old(self).initialized() ==> final(self).initialized(),
    {
        let mut cl = self.grid[index];
        cl.alive = draw % 2 == 0;
        self.grid[index] = cl;
    }

    /// Redraws every cell from the process's random source: a cell becomes
    /// alive exactly when its fresh draw is even, so roughly half the cells
    /// come up alive. Topology and every other field carry over.
    pub fn randomise(&mut self)
        requires
            old(self).wf(),
        ensures
            final(self).wf(),
            final(self).width == old(self).width,
            final(self).height == old(self).height,
            final(self).scale == old(self).scale,
            final(self).size == old(self).size,
            final(self).paused == old(self).paused,
            final(self).grid@.len() == old(self).grid@.len(),
            forall|i: int|
                0 <= i < old(self).grid@.len() ==> (#[trigger] final(self).grid@[i]).coords == old(
                    self,
                ).grid@[i].coords && final(self).grid@[i].neighbours == old(
                    self,
                ).grid@[i].neighbours,
            old(self).initialized() ==> final(self).initialized(),
    {
        let mut c: usize = 0;
        while c < self.size
            invariant
                c <= self.size,
                self.wf(),
                self.width == old(self).width,
                self.height == old(self).height,
                self.scale == old(self).scale,
                self.size == old(self).size,
                self.paused == old(self).paused,
                self.grid@.len() == old(self).grid@.len(),
                forall|i: int|
                    0 <= i < old(self).grid@.len() ==> (#[trigger] self.grid@[i]).coords == old(
                        self,
                    ).grid@[i].coords && self.grid@[i].neighbours == old(self).grid@[i].neighbours,
                old(self).initialized() ==> self.initialized(),
            decreases self.size - c,
        {
            let draw: usize = rand::random::<usize>();
            self.seed_cell(c, draw);
            c = c + 1;
        }
    }

    /// Overwrites every cell's life state from an image sampled at one
    /// pixel per cell: a cell comes out dead exactly when the pixel at
    /// (column * scale, row * scale) is opaque white. The image must
    /// measure exactly width * scale by height * scale pixels; on a
    /// mismatch nothing changes and the mismatch is reported.
    pub fn image_to_grid(&mut self, im: &image::DynamicImage) -> (r: Result<(), GridError>)
        requires
            old(self).wf(),
        ensures
            final(self).width == old(self).width,
            final(self).height == old(self).height,
            final(self).scale == old(self).scale,
            final(self).size == old(self).size,
            final(self).paused == old(self).paused,
            final(self).grid@.len() == old(self).grid@.len(),
            forall|i: int|
                0 <= i < old(self).size ==> (#[trigger] final(self).grid@[i]).coords == old(
                    self,
                ).grid@[i].coords && final(self).grid@[i].neighbours == old(
                    self,
                ).grid@[i].neighbours,
            old(self).initialized() ==> final(self).initialized(),
            r is Ok <==> image_dims(*im) == (
                old(self).width as int * old(self).scale as int,
                old(self).height as int * old(self).scale as int,
            ),
            r is Ok ==> forall|c: int|
                0 <= c < old(self).size ==> (#[trigger] final(self).grid@[c]).alive == !is_white(
                    image_pixels(*im)[
                        (
                            (c % old(self).width as int) * old(self).scale as int,
                            (c / old(self).width as int) * old(self).scale as int,
                        )
                    ],
                ),
            r is Err ==> *final(self) == *old(self) && r == Err::<(), GridError>(
                GridError::DimensionMismatch,
            ),
    {
        let (a, b) = image_dimensions(im);
        let wpx_opt = self.width.checked_mul(self.scale);
        let hpx_opt = self.height.checked_mul(self.scale);
        let dims_match: bool = match (wpx_opt, hpx_opt) {
            (Some(wp), Some(hp)) => (a as usize) == wp && (b as usize) == hp,
            _ => false,
        };
        if !dims_match {
            return Err(GridError::DimensionMismatch);
        }
        proof {
            assert(self.width * self.scale <= u32::MAX);
            assert(self.height * self.scale <= u32::MAX);
        }
        let mut c: usize = 0;
        while c < self.size
            invariant
                c <= self.size,
                self.wf(),
                self.width == old(self).width,
                self.height == old(self).height,
                self.scale == old(self).scale,
                self.size == old(self).size,
                self.paused == old(self).paused,
                self.grid@.len() == old(self).grid@.len(),
                image_dims(*im) == (
                    self.width as int * self.scale as int,
                    self.height as int * self.scale as int,
                ),
                self.width * self.scale <= u32::MAX,
                self.height * self.scale <= u32::MAX,
                forall|i: int|
                    0 <= i < old(self).size ==> (#[trigger] self.grid@[i]).coords == old(
                        self,
                    ).grid@[i].coords && self.grid@[i].neighbours == old(self).grid@[i].neighbours,
                forall|j: int|
                    0 <= j < c ==> (#[trigger] self.grid@[j]).alive == !is_white(
                        image_pixels(*im)[
                            (
                                (j % self.width as int) * self.scale as int,
                                (j / self.width as int) * self.scale as int,
                            )
                        ],
                    ),
                old(self).initialized() ==> self.initialized(),
            decreases self.size - c,
        {
            proof {
                assert(self.width >= 1 && self.height >= 1) by (nonlinear_arith)
                    requires
                        self.size == self.width * self.height,
                        self.size >= 1,
                ;
            }
            let x: usize = c % self.width;
            let y: usize = c / self.width;
            proof {
                crate::cell::lemma_grid_coords(c as int, self.width as int, self.height as int);
                assert(x * self.scale + self.scale <= self.width * self.scale) by (nonlinear_arith)
                    requires
                        x < self.width,
                        1 <= self.scale,
                ;
                assert(y * self.scale + self.scale <= self.height * self.scale) by (nonlinear_arith)
                    requires
                        y < self.height,
                        1 <= self.scale,
                ;
            }
            let px: usize = x * self.scale;
            let py: usize = y * self.scale;
            proof {
                assert(px <= u32::MAX && py <= u32::MAX);
            }
            let pixel = image_pixel_at(im, px as u32, py as u32);
            let white: bool = pixel[0] == 255 && pixel[1] == 255 && pixel[2] == 255 && pixel[3]
                == 255;
            proof {
                assert(white == is_white(pixel@));
            }
            let mut cl = self.grid[c];
            cl.alive = !white;
            self.grid[c] = cl;
            c = c + 1;
        }
        Ok(())
    }
}

} // verus!
