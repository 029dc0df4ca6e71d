//! Per-axis tile-center geometry.
//!
//! Given the extent of one image axis (`range`), the side length of the
//! tiles along that axis (`tile_side`) and the number of tiles wanted along
//! that axis (`segment_count`), the engine yields the position of the first
//! tile center and the uniform stride between consecutive centers, such
//! that every center keeps its tile inside the image.

use vstd::prelude::*;

use crate::TileError;

verus! {

use vstd::arithmetic::div_mod::{
    lemma_fundamental_div_mod,
    lemma_mod_bound,
    lemma_div_is_ordered,
    lemma_div_pos_is_pos,
    lemma_div_nonincreasing,
};
use vstd::arithmetic::mul::{
    lemma_mul_inequality,
    lemma_mul_nonnegative,
};

/// Layout of evenly spaced tile centers along one image axis: the position
/// of the first center and the uniform stride between consecutive centers.
#[derive(Clone, Copy, Debug, PartialEq, Eq, Structural)]
pub struct AxisLayout {
    pub first_center: u32,
    pub stride: u32,
}

/// A geometry request is well-formed when it asks for at least one tile and
/// the tile fits in the axis extent.
pub open spec fn valid_axis_input(range: int, side: int, n: int) -> bool {
    &&& n >= 1
    &&& 1 <= side <= range
}

/// The default law spaces centers at multiples of `range / (n + 1)`. It is
/// abandoned ("clamped") exactly when it would push the first tile past the
/// low edge of the image.
pub open spec fn spec_clamped(range: int, side: int, n: int) -> bool {
    range / (n + 1) < side / 2
}

/// The first tile center along one axis.
pub open spec fn spec_first_center(range: int, side: int, n: int) -> int
    recommends
        valid_axis_input(range, side, n),
{
    if !spec_clamped(range, side, n) {
        range / (n + 1)
    } else if n == 1 {
        range / 2
    } else {
        side / 2
    }
}

/// The uniform stride between consecutive tile centers along one axis.
pub open spec fn spec_stride(range: int, side: int, n: int) -> int
    recommends
        valid_axis_input(range, side, n),
{
    if !spec_clamped(range, side, n) {
        range / (n + 1)
    } else if n == 1 {
        0
    } else {
        (range - side) / (n - 1)
    }
}

/// The `k`-th tile center along one axis (zero-based).
pub open spec fn spec_center(range: int, side: int, n: int, k: int) -> int
    recommends
        valid_axis_input(range, side, n),
{
    spec_first_center(range, side, n) + k * spec_stride(range, side, n)
}

/// Computes the first tile center and the stride for one axis.
///
/// Succeeds exactly on well-formed requests; the layout is the one given by
/// `spec_first_center` and `spec_stride`: evenly divided centers by default,
/// edge-anchored centers when the tile is too large for that, and a single
/// centered tile when one tile is requested and the default law fails.
pub fn compute_axis_layout(range: u32, tile_side: u32, segment_count: u32) -> (result: Result<
    AxisLayout,
    TileError,
>)
    ensures
        result is Ok <==> valid_axis_input(range as int, tile_side as int, segment_count as int),
        result matches Ok(layout) ==> {
            &&& layout.first_center == spec_first_center(
                range as int,
                tile_side as int,
                segment_count as int,
            )
            &&& layout.stride == spec_stride(range as int, tile_side as int, segment_count as int)
        },
        result matches Err(e) ==> e is InvalidInput,
{
    if segment_count == 0 || tile_side == 0 || tile_side > range {
        return Err(TileError::InvalidInput);
    }
    let divisor: u64 = segment_count as u64 + 1;
    let q64: u64 = range as u64 / divisor;
    proof {
        lemma_div_nonincreasing(range as int, divisor as int);
    }
    let q: u32 = q64 as u32;
    if q >= tile_side / 2 {
        Ok(AxisLayout { first_center: q, stride: q })
    } else if segment_count == 1 {
        Ok(AxisLayout { first_center: range / 2, stride: 0 })
    } else {
        Ok(
            AxisLayout {
                first_center: tile_side / 2,
                stride: (range - tile_side) / (segment_count - 1),
            },
        )
    }
}

/// Boundary invariant: every center returned for a well-formed request
/// keeps its tile inside the axis extent, measured in integer half-sides:
/// `center - side / 2 >= 0` and `center + side / 2 <= range`.
pub proof fn lemma_center_in_bounds(range: int, side: int, n: int, k: int)
    requires
        valid_axis_input(range, side, n),
        0 <= k < n,
    ensures
        side / 2 <= spec_center(range, side, n, k),
        spec_center(range, side, n, k) + side / 2 <= range,
{
    let q = range / (n + 1);
    lemma_fundamental_div_mod(range, n + 1);
    lemma_mod_bound(range, n + 1);
    lemma_div_pos_is_pos(range, n + 1);
    if !spec_clamped(range, side, n) {
        // center = q + k * q; side / 2 <= q
        lemma_mul_nonnegative(k, q);
        lemma_mul_inequality(k, n - 1, q);
        assert((n - 1) * q + 2 * q == (n + 1) * q) by (nonlinear_arith);
    } else if n == 1 {
        // center = range / 2
        assert(k == 0);
        lemma_div_is_ordered(side, range, 2);
        lemma_fundamental_div_mod(range, 2);
        lemma_mod_bound(range, 2);
    } else {
        // center = side / 2 + k * stride
        let s = (range - side) / (n - 1);
        lemma_div_pos_is_pos(range - side, n - 1);
        lemma_mul_nonnegative(k, s);
        lemma_mul_inequality(k, n - 1, s);
        lemma_fundamental_div_mod(range - side, n - 1);
        lemma_mod_bound(range - side, n - 1);
        lemma_fundamental_div_mod(side, 2);
        lemma_mod_bound(side, 2);
    }
}

/// Default spacing law: whenever the tile side is at most
/// `range / (n + 1)`, the centers are exactly `k * (range / (n + 1))`
/// for `k = 1, ..., n`.
pub proof fn lemma_default_spacing(range: int, side: int, n: int, k: int)
    requires
        valid_axis_input(range, side, n),
        side <= range / (n + 1),
        1 <= k <= n,
    ensures
        spec_center(range, side, n, k - 1) == k * (range / (n + 1)),
{
    let q = range / (n + 1);
    lemma_fundamental_div_mod(side, 2);
    lemma_mod_bound(side, 2);
    lemma_div_pos_is_pos(side, 2);
    assert(!spec_clamped(range, side, n));
    assert(q + (k - 1) * q == k * q) by (nonlinear_arith);
}

/// Edge-anchored spacing law: when the default law would break the boundary
/// invariant and more than one tile is requested, the first center sits at
/// `side / 2`, consecutive centers are exactly one stride apart, and — for
/// an even tile side and a stride that divides evenly — the last center
/// sits at `range - side / 2`.
pub proof fn lemma_clamped_edge_anchored(range: int, side: int, n: int)
    requires
        valid_axis_input(range, side, n),
        spec_clamped(range, side, n),
        n >= 2,
        side % 2 == 0,
        (range - side) % (n - 1) == 0,
    ensures
        spec_first_center(range, side, n) == side / 2,
        spec_center(range, side, n, n - 1) == range - side / 2,
        forall|k: int|
            0 <= k < n - 1 ==> spec_center(range, side, n, k + 1) == #[trigger] spec_center(
                range,
                side,
                n,
                k,
            ) + spec_stride(range, side, n),
{
    let s = (range - side) / (n - 1);
    lemma_fundamental_div_mod(range - side, n - 1);
    lemma_fundamental_div_mod(side, 2);
    assert((n - 1) * s == range - side);
    assert forall|k: int| 0 <= k < n - 1 implies spec_center(range, side, n, k + 1)
        == #[trigger] spec_center(range, side, n, k) + spec_stride(range, side, n) by {
        assert((k + 1) * s == k * s + s) by (nonlinear_arith);
    }
}

} // verus!
