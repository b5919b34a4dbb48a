//! Random generation of integer points inside a margin-inset rectangle
//! centered at the origin.

use vstd::prelude::*;
use crate::geometry::Point;
use rand::Rng;

verus! {

/// The generation bounds were invalid: a non-positive dimension, a negative
/// margin, or a margin that consumes the whole extent.
#[derive(Clone, Copy, PartialEq, Eq, Structural, Debug)]
pub struct ConfigurationError;

/// Whether a `width`/`height`/`margin` configuration leaves a non-empty
/// inclusive coordinate range on both axes.
pub open spec fn valid_bounds(width: int, height: int, margin: int) -> bool {
    &&& width >= 1
    &&& height >= 1
    &&& margin >= 0
    &&& 2 * margin <= width
    &&& 2 * margin <= height
}

/// Lowest coordinate allowed on an axis of full extent `dim` (truncating
/// halving, as the generator computes it for a positive `dim`).
pub open spec fn low_bound(dim: int, margin: int) -> int {
    -(dim / 2) + margin
}

/// Highest coordinate allowed on an axis of full extent `dim`.
pub open spec fn high_bound(dim: int, margin: int) -> int {
    dim / 2 - margin
}

/// Whether `p` lies inside the margin-inset rectangle of the given extents.
pub open spec fn in_rectangle(p: Point, width: int, height: int, margin: int) -> bool {
    &&& low_bound(width, margin) <= p.x <= high_bound(width, margin)
    &&& low_bound(height, margin) <= p.y <= high_bound(height, margin)
}

/// Relies on `rand::Rng::gen_range` over an inclusive integer range, with the
/// process-wide generator of `rand::thread_rng`: it panics only on an empty
/// range, and every sample lies within the given bounds. Nothing more is
/// assumed of a random draw.
#[verifier::external_body]
fn sample_inclusive(low: i64, high: i64) -> (r: i64)
    requires
        low <= high,
    ensures
        low <= r <= high,
{
    rand::thread_rng().gen_range(low..=high)
}

/// Halve a positive extent, truncating.
fn half_extent(dim: i64) -> (r: i64)
    requires
        dim >= 1,
    ensures
        r == dim as int / 2,
        0 <= r <= dim,
{
    let h: u64 = (dim as u64) / 2;
    h as i64
}

proof fn lemma_margin_halving(dim: int, margin: int)
    requires
        dim >= 1,
    ensures
        margin > dim / 2 <==> 2 * margin > dim,
{
    vstd::arithmetic::div_mod::lemma_fundamental_div_mod(dim, 2);
    vstd::arithmetic::div_mod::lemma_mod_bound(dim, 2);
}

/// Produce `n` points drawn independently and uniformly from the rectangle
/// `[-(width/2)+margin, (width/2)-margin] x [-(height/2)+margin, (height/2)-margin]`,
/// in generation order, or report that the configuration leaves no valid
/// range on some axis.
pub fn random_points(n: usize, width: i64, height: i64, margin: i64) -> (r: Result<
    Vec<Point>,
    ConfigurationError,
>)
    ensures
        match r {
            Ok(ps) => {
                &&& valid_bounds(width as int, height as int, margin as int)
                &&& ps@.len() == n
                &&& forall|i: int|
                    0 <= i < ps@.len() ==> in_rectangle(
                        ps@[i],
                        width as int,
                        height as int,
                        margin as int,
                    )
            },
            Err(e) => !valid_bounds(width as int, height as int, margin as int),
        },
{
    if width < 1 || height < 1 || margin < 0 {
        return Err(ConfigurationError);
    }
    let half_w = half_extent(width);
    let half_h = half_extent(height);
    proof {
        lemma_margin_halving(width as int, margin as int);
        lemma_margin_halving(height as int, margin as int);
    }
    if margin > half_w || margin > half_h {
        return Err(ConfigurationError);
    }
    let x_low = -half_w + margin;
    let x_high = half_w - margin;
    let y_low = -half_h + margin;
    let y_high = half_h - margin;

    let mut points: Vec<Point> = Vec::new();
    let mut i: usize = 0;
    while i < n
        invariant
            points@.len() == i,
            i <= n,
            x_low == low_bound(width as int, margin as int),
            x_high == high_bound(width as int, margin as int),
            y_low == low_bound(height as int, margin as int),
            y_high == high_bound(height as int, margin as int),
            x_low <= x_high,
            y_low <= y_high,
            forall|k: int|
                0 <= k < points@.len() ==> in_rectangle(
                    points@[k],
                    width as int,
                    height as int,
                    margin as int,
                ),
        decreases n - i,
    {
        let x = sample_inclusive(x_low, x_high);
        let y = sample_inclusive(y_low, y_high);
        points.push(Point::new(x, y));
        i = i + 1;
    }
    Ok(points)
}

} // verus!
