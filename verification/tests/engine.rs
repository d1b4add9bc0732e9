use image::GenericImage;
use toroidal_life::Cell;
use toroidal_life::Game;
use toroidal_life::GridError;

/// A grid of `pixel_w` by `pixel_h` pixels at the given scale, fully
/// initialized.
fn fresh_game(pixel_w: usize, pixel_h: usize, scale: usize) -> Game {
    let mut g = Game::new(pixel_w, pixel_h, scale);
    g.init();
    g
}

#[test]
fn cell_new_is_zero_valued() {
    let c = Cell::new();
    assert!(!c.alive);
    assert_eq!(c.coords, [0, 0]);
    assert_eq!(c.neighbours, [0; 8]);
}

#[test]
fn toggle_life_flips_only_life() {
    let mut c = Cell::new();
    c.toggle_life();
    assert!(c.alive);
    assert_eq!(c.coords, [0, 0]);
    assert_eq!(c.neighbours, [0; 8]);
    c.toggle_life();
    assert!(!c.alive);
}

#[test]
fn get_coords_is_mod_and_div() {
    let c = Cell::new();
    assert_eq!(c.get_coords(7, 3), [1, 2]);
    assert_eq!(c.get_coords(0, 5), [0, 0]);
    assert_eq!(c.get_coords(4, 5), [4, 0]);
    assert_eq!(c.get_coords(5, 5), [0, 1]);
}

#[test]
fn new_derives_dimensions_from_scale() {
    let g = Game::new(100, 80, 10);
    assert_eq!(g.width, 10);
    assert_eq!(g.height, 8);
    assert_eq!(g.scale, 10);
    assert_eq!(g.size, 80);
    assert!(g.paused);
    assert_eq!(g.grid.len(), 80);
    // Fresh cells are zero-valued until init() derives their topology.
    assert!(g.grid.iter().all(|c| !c.alive && c.coords == [0, 0] && c.neighbours == [0; 8]));
}

#[test]
fn toggle_pause_flips_pause() {
    let mut g = Game::new(10, 10, 1);
    assert!(g.paused);
    g.toggle_pause();
    assert!(!g.paused);
    g.toggle_pause();
    assert!(g.paused);
}

#[test]
fn golden_neighbours_3x3_cell0() {
    // Golden fixture: in a 3x3 grid, cell 0's neighbours in the order
    // [north, south, east, west, north-west, north-east, south-west,
    // south-east].
    let g = fresh_game(3, 3, 1);
    assert_eq!(g.grid[0].neighbours, [6, 3, 1, 2, 8, 7, 5, 4]);
}

#[test]
fn neighbours_in_range_and_distinct() {
    let g = fresh_game(5, 4, 1);
    for c in 0..g.size {
        let nb = g.grid[c].neighbours;
        for k in 0..8 {
            assert!(nb[k] < g.size);
            for l in 0..k {
                assert_ne!(nb[k], nb[l]);
            }
        }
    }
}

#[test]
fn neighbour_relation_is_symmetric() {
    // north <-> south, east <-> west, north-east <-> south-west,
    // north-west <-> south-east, at slots [0,1], [2,3], [5,6], [4,7].
    let g = fresh_game(4, 5, 1);
    for c in 0..g.size {
        let nb = g.grid[c].neighbours;
        assert_eq!(g.grid[nb[0]].neighbours[1], c);
        assert_eq!(g.grid[nb[1]].neighbours[0], c);
        assert_eq!(g.grid[nb[2]].neighbours[3], c);
        assert_eq!(g.grid[nb[3]].neighbours[2], c);
        assert_eq!(g.grid[nb[5]].neighbours[6], c);
        assert_eq!(g.grid[nb[6]].neighbours[5], c);
        assert_eq!(g.grid[nb[4]].neighbours[7], c);
        assert_eq!(g.grid[nb[7]].neighbours[4], c);
    }
}

#[test]
fn init_assigns_coords() {
    let g = fresh_game(3, 3, 1);
    assert_eq!(g.grid[0].coords, [0, 0]);
    assert_eq!(g.grid[5].coords, [2, 1]);
    assert_eq!(g.grid[7].coords, [1, 2]);
}

#[test]
fn count_neighbours_counts_live_cells() {
    let mut g = fresh_game(3, 3, 1);
    assert_eq!(g.count_neighbours(4), 0);
    g.paint([0, 0]).unwrap();
    g.paint([1, 0]).unwrap();
    g.paint([2, 1]).unwrap();
    // The centre cell 4 neighbours every other cell; 0, 1 and 5 are live.
    assert_eq!(g.count_neighbours(4), 3);
    // Cell 0's neighbours are [6, 3, 1, 2, 8, 7, 5, 4]; 1 and 5 are live.
    assert_eq!(g.count_neighbours(0), 2);
}

#[test]
fn update_on_all_dead_grid_stays_dead() {
    let mut g = fresh_game(4, 4, 1);
    g.update();
    assert!(g.grid.iter().all(|c| !c.alive));
    assert_eq!(g.grid.len(), 16);
}

#[test]
fn lonely_cell_dies() {
    let mut g = fresh_game(5, 5, 1);
    g.paint([2, 2]).unwrap();
    assert!(g.grid[12].alive);
    g.update();
    assert!(g.grid.iter().all(|c| !c.alive));
}

#[test]
fn block_is_a_still_life() {
    let mut g = fresh_game(6, 6, 1);
    for (x, y) in [(2, 2), (3, 2), (2, 3), (3, 3)] {
        g.paint([x, y]).unwrap();
    }
    let before: Vec<bool> = g.grid.iter().map(|c| c.alive).collect();
    g.update();
    let after: Vec<bool> = g.grid.iter().map(|c| c.alive).collect();
    assert_eq!(before, after);
    assert!(g.grid[2 + 2 * 6].alive);
}

#[test]
fn block_wrapped_around_the_edge_is_a_still_life() {
    // The block's top-left corner sits at (3, 2) on a 4x4 torus, so its
    // right column wraps around to column 0.
    let mut g = fresh_game(4, 4, 1);
    for (x, y) in [(3, 2), (0, 2), (3, 3), (0, 3)] {
        g.paint([x, y]).unwrap();
    }
    let before: Vec<bool> = g.grid.iter().map(|c| c.alive).collect();
    g.update();
    let after: Vec<bool> = g.grid.iter().map(|c| c.alive).collect();
    assert_eq!(before, after);
    assert!(g.grid[11].alive && g.grid[8].alive && g.grid[15].alive && g.grid[12].alive);
}

#[test]
fn blinker_oscillates() {
    let mut g = fresh_game(5, 5, 1);
    for (x, y) in [(2, 1), (2, 2), (2, 3)] {
        g.paint([x, y]).unwrap();
    }
    g.update();
    let alive: Vec<usize> = (0..g.size).filter(|&i| g.grid[i].alive).collect();
    assert_eq!(alive, vec![11, 12, 13]);
    g.update();
    let alive: Vec<usize> = (0..g.size).filter(|&i| g.grid[i].alive).collect();
    assert_eq!(alive, vec![7, 12, 17]);
}

#[test]
fn update_keeps_topology() {
    let mut g = fresh_game(4, 4, 1);
    g.paint([1, 1]).unwrap();
    let coords: Vec<[usize; 2]> = g.grid.iter().map(|c| c.coords).collect();
    let neighbours: Vec<[usize; 8]> = g.grid.iter().map(|c| c.neighbours).collect();
    g.update();
    assert_eq!(coords, g.grid.iter().map(|c| c.coords).collect::<Vec<_>>());
    assert_eq!(neighbours, g.grid.iter().map(|c| c.neighbours).collect::<Vec<_>>());
}

#[test]
fn get_cell_maps_points_to_indices() {
    let g = fresh_game(9, 9, 3);
    assert_eq!(g.get_cell([0, 0]), 0);
    assert_eq!(g.get_cell([8, 0]), 2);
    assert_eq!(g.get_cell([4, 7]), 7);
}

#[test]
fn paint_round_trip_restores_the_grid() {
    let mut g = fresh_game(9, 9, 3);
    g.paint([4, 4]).unwrap();
    assert!(g.grid[4].alive);
    g.paint([4, 4]).unwrap();
    assert!(g.grid.iter().all(|c| !c.alive));
    // Also around an unrelated live cell.
    g.paint([4, 4]).unwrap();
    g.paint([6, 3]).unwrap();
    g.paint([6, 3]).unwrap();
    assert!(g.grid[4].alive);
    assert!(!g.grid[5].alive);
}

#[test]
fn paint_out_of_range_is_rejected() {
    let mut g = fresh_game(9, 9, 3);
    assert_eq!(g.paint([9, 0]), Err(GridError::OutOfRange));
    assert_eq!(g.paint([0, 11]), Err(GridError::OutOfRange));
    assert!(g.grid.iter().all(|c| !c.alive));
    assert_eq!(g.paint([8, 8]), Ok(()));
}

#[test]
fn all_white_image_seeds_all_dead() {
    let mut g = fresh_game(6, 6, 2);
    g.paint([0, 0]).unwrap();
    let white = image::Rgba([255u8, 255, 255, 255]);
    let im = image::DynamicImage::ImageRgba8(image::ImageBuffer::from_pixel(6, 6, white));
    assert_eq!(g.image_to_grid(&im), Ok(()));
    assert!(g.grid.iter().all(|c| !c.alive));
}

#[test]
fn non_white_pixels_seed_their_cells_alive() {
    let mut g = fresh_game(6, 6, 2);
    let white = image::Rgba([255u8, 255, 255, 255]);
    let mut buf = image::ImageBuffer::from_pixel(6, 6, white);
    buf.put_pixel(2, 0, image::Rgba([0u8, 0, 0, 255]));
    let mut im = image::DynamicImage::ImageRgba8(buf);
    // Cell (1, 0) samples the pixel at (2, 0); every other sampled pixel is
    // white.
    assert_eq!(g.image_to_grid(&im), Ok(()));
    let alive: Vec<usize> = (0..g.size).filter(|&i| g.grid[i].alive).collect();
    assert_eq!(alive, vec![1]);
    // A nearly-white pixel still counts as alive.
    im.put_pixel(4, 4, image::Rgba([255u8, 255, 254, 255]));
    assert_eq!(g.image_to_grid(&im), Ok(()));
    let alive: Vec<usize> = (0..g.size).filter(|&i| g.grid[i].alive).collect();
    assert_eq!(alive, vec![1, 8]);
}

#[test]
fn mismatched_image_is_rejected() {
    let mut g = fresh_game(6, 6, 2);
    g.paint([0, 0]).unwrap();
    let white = image::Rgba([255u8, 255, 255, 255]);
    let im = image::DynamicImage::ImageRgba8(image::ImageBuffer::from_pixel(5, 6, white));
    assert_eq!(g.image_to_grid(&im), Err(GridError::DimensionMismatch));
    // The grid is untouched by a rejected image.
    assert!(g.grid[0].alive);
    assert_eq!(g.grid.iter().filter(|c| c.alive).count(), 1);
}

#[test]
fn seed_cell_follows_parity() {
    let mut g = fresh_game(3, 3, 1);
    g.seed_cell(0, 4);
    assert!(g.grid[0].alive);
    g.seed_cell(0, 5);
    assert!(!g.grid[0].alive);
    g.seed_cell(8, 0);
    assert!(g.grid[8].alive);
}

#[test]
fn randomise_keeps_topology() {
    let mut g = fresh_game(4, 4, 1);
    let coords: Vec<[usize; 2]> = g.grid.iter().map(|c| c.coords).collect();
    let neighbours: Vec<[usize; 8]> = g.grid.iter().map(|c| c.neighbours).collect();
    g.randomise();
    assert_eq!(g.grid.len(), 16);
    assert!(g.paused);
    assert_eq!(coords, g.grid.iter().map(|c| c.coords).collect::<Vec<_>>());
    assert_eq!(neighbours, g.grid.iter().map(|c| c.neighbours).collect::<Vec<_>>());
}
