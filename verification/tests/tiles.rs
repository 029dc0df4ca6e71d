use std::collections::HashSet;

use tilegrid::tiles::extract_plan;
use tilegrid::tiles::tile_grid;
use tilegrid::tiles::Tile;
use tilegrid::tiles::TileRequest;
use tilegrid::TileError;

#[test]
fn grid_of_default_case() {
    // 100 x 100 image, 4 x 4 grid of 20 x 20 tiles: centers {20,40,60,80}
    // on both axes, so low corners are {10,30,50,70}.
    let req = TileRequest { rows: 4, cols: 4, tile_width: 20, tile_height: 20 };
    let tiles = tile_grid(100, 100, &req).unwrap();
    assert_eq!(tiles.len(), 16);
    assert_eq!(tiles[0], Tile { x: 10, y: 10, width: 20, height: 20 });
    assert_eq!(tiles[1], Tile { x: 30, y: 10, width: 20, height: 20 });
    assert_eq!(tiles[4], Tile { x: 10, y: 30, width: 20, height: 20 });
    assert_eq!(tiles[15], Tile { x: 70, y: 70, width: 20, height: 20 });
    for t in &tiles {
        assert_eq!(t.width, 20);
        assert_eq!(t.height, 20);
        assert!(t.x + t.width <= 100);
        assert!(t.y + t.height <= 100);
    }
}

#[test]
fn grid_of_clamp_case() {
    // 100 x 100 image, 4 x 4 grid of 60 x 60 tiles: centers {30,43,56,69},
    // low corners {0,13,26,39}; every tile still fits.
    let req = TileRequest { rows: 4, cols: 4, tile_width: 60, tile_height: 60 };
    let tiles = tile_grid(100, 100, &req).unwrap();
    assert_eq!(tiles.len(), 16);
    assert_eq!(tiles[0], Tile { x: 0, y: 0, width: 60, height: 60 });
    assert_eq!(tiles[5], Tile { x: 13, y: 13, width: 60, height: 60 });
    assert_eq!(tiles[15], Tile { x: 39, y: 39, width: 60, height: 60 });
    for t in &tiles {
        assert!(t.x + t.width <= 100);
        assert!(t.y + t.height <= 100);
    }
}

#[test]
fn grid_with_odd_side_is_clamped_into_bounds() {
    // A 3-pixel tile over a 3-pixel axis with 2 segments: both centers
    // {1,2} give a low corner clamped to 0, so no tile overhangs.
    let req = TileRequest { rows: 2, cols: 2, tile_width: 3, tile_height: 3 };
    let tiles = tile_grid(3, 3, &req).unwrap();
    assert_eq!(tiles.len(), 4);
    for t in &tiles {
        assert_eq!((t.width, t.height), (3, 3));
        assert!(t.x + t.width <= 3);
        assert!(t.y + t.height <= 3);
    }
}

#[test]
fn grid_rejects_oversized_tile() {
    let req = TileRequest { rows: 2, cols: 2, tile_width: 20, tile_height: 20 };
    assert_eq!(tile_grid(10, 100, &req), Err(TileError::InvalidInput));
}

#[test]
fn grid_rejects_zero_rows() {
    let req = TileRequest { rows: 0, cols: 2, tile_width: 20, tile_height: 20 };
    assert_eq!(tile_grid(100, 100, &req), Err(TileError::InvalidInput));
}

#[test]
fn plan_pairs_tiles_with_names() {
    // 100 x 100 image, 2 x 2 grid of 20 x 20 tiles: centers 33 and 66 on
    // both axes, low corners 23 and 56.
    let req = TileRequest { rows: 2, cols: 2, tile_width: 20, tile_height: 20 };
    let plan = extract_plan("img", 100, 100, &req).unwrap();
    assert_eq!(plan.len(), 4);
    assert_eq!(plan[0].tile, Tile { x: 23, y: 23, width: 20, height: 20 });
    assert_eq!(plan[0].name, "img_0_0.png");
    assert_eq!(plan[1].name, "img_0_1.png");
    assert_eq!(plan[2].name, "img_1_0.png");
    assert_eq!(plan[3].name, "img_1_1.png");
    assert_eq!(plan[3].tile, Tile { x: 56, y: 56, width: 20, height: 20 });
}

#[test]
fn plan_is_repeatable_and_collision_free() {
    // The same request twice gives the same names in the same order, and
    // no name appears twice within one plan.
    let req = TileRequest { rows: 3, cols: 5, tile_width: 8, tile_height: 6 };
    let first = extract_plan("shot", 64, 48, &req).unwrap();
    let second = extract_plan("shot", 64, 48, &req).unwrap();
    let first_names: Vec<String> = first.iter().map(|p| p.name.clone()).collect();
    let second_names: Vec<String> = second.iter().map(|p| p.name.clone()).collect();
    assert_eq!(first_names, second_names);
    let unique: HashSet<&String> = first_names.iter().collect();
    assert_eq!(unique.len(), first_names.len());
}

#[test]
fn plan_rejects_invalid_request() {
    let req = TileRequest { rows: 2, cols: 0, tile_width: 20, tile_height: 20 };
    assert!(extract_plan("img", 100, 100, &req).is_err());
}
