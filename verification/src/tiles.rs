//! The tile grid: the row-major sequence of crop rectangles for one image.
//!
//! Centers come from the per-axis geometry engine; each center is turned
//! into the low corner of a crop rectangle, clamped so that the full tile
//! always lies inside the image.

use vstd::prelude::*;

use crate::TileError;
use crate::naming::lemma_tile_name_injective;
use crate::naming::spec_tile_name;
use crate::naming::tile_file_name;
use crate::geometry::compute_axis_layout;
use crate::geometry::lemma_center_in_bounds;
use crate::geometry::spec_center;
use crate::geometry::spec_first_center;
use crate::geometry::spec_stride;
use crate::geometry::valid_axis_input;
use crate::geometry::AxisLayout;

verus! {

use vstd::arithmetic::div_mod::lemma_fundamental_div_mod;
use vstd::arithmetic::div_mod::lemma_fundamental_div_mod_converse;
use vstd::arithmetic::div_mod::lemma_mod_bound;
use vstd::arithmetic::div_mod::lemma_multiply_divide_lt;
use vstd::arithmetic::mul::lemma_mul_is_commutative;
use vstd::arithmetic::mul::lemma_mul_nonnegative;

/// The desired grid: how many tiles along each axis and the pixel size of
/// every tile. Shared read-only by all files of a batch.
#[derive(Clone, Copy, Debug, PartialEq, Eq, Structural)]
pub struct TileRequest {
    pub rows: u32,
    pub cols: u32,
    pub tile_width: u32,
    pub tile_height: u32,
}

/// One rectangular crop region, fully inside the source image.
#[derive(Clone, Copy, Debug, PartialEq, Eq, Structural)]
pub struct Tile {
    pub x: u32,
    pub y: u32,
    pub width: u32,
    pub height: u32,
}

/// A request is well-formed for a given image exactly when both axes are
/// well-formed geometry inputs.
pub open spec fn valid_request(width: int, height: int, req: TileRequest) -> bool {
    &&& valid_axis_input(width, req.tile_width as int, req.cols as int)
    &&& valid_axis_input(height, req.tile_height as int, req.rows as int)
}

/// The low corner derived from a center: the center minus half the side,
/// clamped so that the full side still fits inside the extent.
pub open spec fn spec_low_from_center(center: int, side: int, range: int) -> int {
    let lo = center - side / 2;
    if lo + side <= range {
        lo
    } else {
        range - side
    }
}

/// The low corner of the `k`-th tile along one axis.
pub open spec fn spec_tile_low(range: int, side: int, n: int, k: int) -> int {
    spec_low_from_center(spec_center(range, side, n, k), side, range)
}

/// Every tile's low corner keeps the whole tile inside the axis extent.
pub proof fn lemma_tile_low_in_bounds(range: int, side: int, n: int, k: int)
    requires
        valid_axis_input(range, side, n),
        0 <= k < n,
    ensures
        0 <= spec_tile_low(range, side, n, k),
        spec_tile_low(range, side, n, k) + side <= range,
{
    lemma_center_in_bounds(range, side, n, k);
}

/// What it means for a tile to be the grid entry at row `r`, column `c` of
/// an image `width` pixels wide and `height` pixels high.
pub open spec fn tile_matches(t: Tile, width: int, height: int, req: TileRequest, r: int, c: int) -> bool {
    &&& t.width == req.tile_width
    &&& t.height == req.tile_height
    &&& t.x == spec_tile_low(width, req.tile_width as int, req.cols as int, c)
    &&& t.y == spec_tile_low(height, req.tile_height as int, req.rows as int, r)
    &&& t.x + t.width <= width
    &&& t.y + t.height <= height
}

/// The `k`-th center along one axis, computed from a layout.
fn center_at(layout: &AxisLayout, range: u32, side: u32, n: u32, k: u32) -> (center: u32)
    requires
        valid_axis_input(range as int, side as int, n as int),
        layout.first_center == spec_first_center(range as int, side as int, n as int),
        layout.stride == spec_stride(range as int, side as int, n as int),
        k < n,
    ensures
        center as int == spec_center(range as int, side as int, n as int, k as int),
        side as int / 2 <= center as int,
        center as int + side as int / 2 <= range as int,
{
    proof {
        lemma_center_in_bounds(range as int, side as int, n as int, k as int);
        lemma_mul_nonnegative(k as int, layout.stride as int);
    }
    let center64: u64 = layout.first_center as u64 + (k as u64) * (layout.stride as u64);
    center64 as u32
}

/// The low corner of a tile whose center is `center`, clamped into the
/// extent.
fn tile_low_at(center: u32, side: u32, range: u32) -> (low: u32)
    requires
        1 <= side <= range,
        side as int / 2 <= center as int,
        center as int + side as int / 2 <= range as int,
    ensures
        low as int == spec_low_from_center(center as int, side as int, range as int),
        low as int + side as int <= range as int,
{
    let lo = center - side / 2;
    if lo <= range - side {
        lo
    } else {
        range - side
    }
}

/// Computes the full row-major grid of crop rectangles for one image.
///
/// Succeeds exactly on requests that are well-formed for the image; the
/// result then holds `rows * cols` tiles, the tile at flat index `i` being
/// the one for row `i / cols` and column `i % cols`, each of the requested
/// size and fully inside the image.
pub fn tile_grid(width: u32, height: u32, req: &TileRequest) -> (result: Result<Vec<Tile>, TileError>)
    ensures
        result is Ok <==> valid_request(width as int, height as int, *req),
        result matches Err(e) ==> e is InvalidInput,
        result matches Ok(tiles) ==> {
            &&& tiles@.len() == req.rows as int * req.cols as int
            &&& forall|i: int|
                0 <= i < tiles@.len() ==> tile_matches(
                    #[trigger] tiles@[i],
                    width as int,
                    height as int,
                    *req,
                    i / (req.cols as int),
                    i % (req.cols as int),
                )
        },
{
    let x_layout = match compute_axis_layout(width, req.tile_width, req.cols) {
        Ok(l) => l,
        Err(e) => {
            return Err(e);
        },
    };
    let y_layout = match compute_axis_layout(height, req.tile_height, req.rows) {
        Ok(l) => l,
        Err(e) => {
            return Err(e);
        },
    };
    let mut tiles: Vec<Tile> = Vec::new();
    let mut r: u32 = 0;
    while r < req.rows
        invariant
            valid_request(width as int, height as int, *req),
            x_layout.first_center == spec_first_center(width as int, req.tile_width as int, req.cols as int),
            x_layout.stride == spec_stride(width as int, req.tile_width as int, req.cols as int),
            y_layout.first_center == spec_first_center(height as int, req.tile_height as int, req.rows as int),
            y_layout.stride == spec_stride(height as int, req.tile_height as int, req.rows as int),
            r <= req.rows,
            tiles@.len() == r as int * req.cols as int,
            forall|i: int|
                0 <= i < tiles@.len() ==> tile_matches(
                    #[trigger] tiles@[i],
                    width as int,
                    height as int,
                    *req,
                    i / (req.cols as int),
                    i % (req.cols as int),
                ),
        decreases req.rows - r,
    {
        let cy = center_at(&y_layout, height, req.tile_height, req.rows, r);
        let y = tile_low_at(cy, req.tile_height, height);
        let mut c: u32 = 0;
        while c < req.cols
            invariant
                valid_request(width as int, height as int, *req),
                x_layout.first_center == spec_first_center(width as int, req.tile_width as int, req.cols as int),
                x_layout.stride == spec_stride(width as int, req.tile_width as int, req.cols as int),
                r < req.rows,
                c <= req.cols,
                cy as int == spec_center(height as int, req.tile_height as int, req.rows as int, r as int),
                y as int == spec_tile_low(height as int, req.tile_height as int, req.rows as int, r as int),
                y as int + req.tile_height as int <= height as int,
                tiles@.len() == r as int * req.cols as int + c as int,
                forall|i: int|
                    0 <= i < tiles@.len() ==> tile_matches(
                        #[trigger] tiles@[i],
                        width as int,
                        height as int,
                        *req,
                        i / (req.cols as int),
                        i % (req.cols as int),
                    ),
            decreases req.cols - c,
        {
            let cx = center_at(&x_layout, width, req.tile_width, req.cols, c);
            let x = tile_low_at(cx, req.tile_width, width);
            tiles.push(Tile { x, y, width: req.tile_width, height: req.tile_height });
            proof {
                lemma_fundamental_div_mod_converse(
                    r as int * req.cols as int + c as int,
                    req.cols as int,
                    r as int,
                    c as int,
                );
            }
            c = c + 1;
        }
        proof {
            assert((r as int + 1) * req.cols as int == r as int * req.cols as int + req.cols as int)
                by (nonlinear_arith);
        }
        r = r + 1;
    }
    Ok(tiles)
}

/// One tile of a plan: the crop rectangle together with the name of the
/// output file it is to be written to.
#[derive(Debug)]
pub struct PlannedTile {
    pub tile: Tile,
    pub name: String,
}

/// What it means for a planned tile to be the plan entry at flat index
/// `i` for a source whose base name is `stem`.
pub open spec fn plan_entry_matches(
    p: PlannedTile,
    stem: Seq<char>,
    width: int,
    height: int,
    req: TileRequest,
    i: int,
) -> bool {
    &&& tile_matches(p.tile, width, height, req, i / (req.cols as int), i % (req.cols as int))
    &&& p.name@ == spec_tile_name(
        stem,
        (i / (req.cols as int)) as u32,
        (i % (req.cols as int)) as u32,
    )
}

/// Computes the whole per-file plan: the row-major grid of crop
/// rectangles, each paired with its output file name.
///
/// Succeeds exactly on requests that are well-formed for the image; the
/// plan then holds `rows * cols` entries, the entry at flat index `i`
/// carrying the tile for row `i / cols` and column `i % cols` and the
/// name `<stem>_<row>_<col>.png`.
pub fn extract_plan(stem: &str, width: u32, height: u32, req: &TileRequest) -> (result: Result<
    Vec<PlannedTile>,
    TileError,
>)
    ensures
        result is Ok <==> valid_request(width as int, height as int, *req),
        result matches Err(e) ==> e is InvalidInput,
        result matches Ok(plan) ==> {
            &&& plan@.len() == req.rows as int * req.cols as int
            &&& forall|i: int|
                0 <= i < plan@.len() ==> plan_entry_matches(
                    #[trigger] plan@[i],
                    stem@,
                    width as int,
                    height as int,
                    *req,
                    i,
                )
        },
{
    let tiles = match tile_grid(width, height, req) {
        Ok(t) => t,
        Err(e) => {
            return Err(e);
        },
    };
    let mut plan: Vec<PlannedTile> = Vec::new();
    let mut i: usize = 0;
    while i < tiles.len()
        invariant
            valid_request(width as int, height as int, *req),
            tiles@.len() == req.rows as int * req.cols as int,
            forall|j: int|
                0 <= j < tiles@.len() ==> tile_matches(
                    #[trigger] tiles@[j],
                    width as int,
                    height as int,
                    *req,
                    j / (req.cols as int),
                    j % (req.cols as int),
                ),
            i <= tiles@.len(),
            plan@.len() == i as int,
            forall|j: int|
                0 <= j < plan@.len() ==> plan_entry_matches(
                    #[trigger] plan@[j],
                    stem@,
                    width as int,
                    height as int,
                    *req,
                    j,
                ),
        decreases tiles@.len() - i,
    {
        proof {
            lemma_mod_bound(i as int, req.cols as int);
            lemma_mul_is_commutative(req.rows as int, req.cols as int);
            lemma_multiply_divide_lt(i as int, req.cols as int, req.rows as int);
        }
        let row = i / (req.cols as usize);
        let col = i % (req.cols as usize);
        let name = tile_file_name(stem, row as u32, col as u32);
        let tile = tiles[i];
        plan.push(PlannedTile { tile, name });
        i = i + 1;
    }
    Ok(plan)
}

/// No two entries of one plan share an output file name: the grid position
/// is recoverable from the name, so the tiles of one source file can be
/// written in any order, or concurrently, without one clobbering another —
/// and a repeated run rewrites exactly the same set of names.
pub proof fn lemma_plan_names_distinct(
    plan: Seq<PlannedTile>,
    stem: Seq<char>,
    width: int,
    height: int,
    req: TileRequest,
    i: int,
    j: int,
)
    requires
        req.cols >= 1,
        plan.len() == req.rows as int * req.cols as int,
        forall|k: int|
            0 <= k < plan.len() ==> plan_entry_matches(#[trigger] plan[k], stem, width, height, req, k),
        0 <= i < plan.len(),
        0 <= j < plan.len(),
        i != j,
    ensures
        plan[i].name@ != plan[j].name@,
{
    let cols = req.cols as int;
    lemma_mod_bound(i, cols);
    lemma_mod_bound(j, cols);
    lemma_mul_is_commutative(req.rows as int, cols);
    lemma_multiply_divide_lt(i, cols, req.rows as int);
    lemma_multiply_divide_lt(j, cols, req.rows as int);
    if plan[i].name@ == plan[j].name@ {
        lemma_tile_name_injective(
            stem,
            (i / cols) as u32,
            (i % cols) as u32,
            (j / cols) as u32,
            (j % cols) as u32,
        );
        lemma_fundamental_div_mod(i, cols);
        lemma_fundamental_div_mod(j, cols);
    }
}

} // verus!
