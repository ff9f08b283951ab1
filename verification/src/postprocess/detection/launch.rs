//! What a detection head asks of the compute device, and what comes back.
use crate::postprocess::detection::candidate::Candidate;
use crate::postprocess::detection::grid::Grid;
use crate::scalar::Scalar;
use cubecl::prelude::CubeDim;
use vstd::arithmetic::div_mod::{lemma_fundamental_div_mod, lemma_fundamental_div_mod_converse};
use vstd::prelude::*;

verus! {

/// A launch over every spot of every image of a batch.
pub struct LaunchRequest {
    /// How many images there are.
    pub batch: usize,
    /// How many spots each image has.
    pub spots: usize,
    /// How many cubes of units to launch, along each axis.
    pub cube_count: (u32, u32, u32),
    /// How many units a cube has, along each axis.
    pub cube_dim: (u32, u32, u32),
    /// The width of an image, in pixels.
    pub image_width: u32,
    /// The height of an image, in pixels.
    pub image_height: u32,
    /// How many pixels a spot stands for: the square of the side of its cell.
    pub area: u32,
    /// The grid of the cells, if their side is whole and divides the width.
    pub grid: Option<Grid>,
    /// The candidates, spot after spot and image after image.
    pub candidates: Vec<Candidate>,
}

/// The corners of a box, in pixels.
#[derive(Clone, Copy, Debug)]
pub struct Corners {
    pub xmin: Scalar,
    pub ymin: Scalar,
    pub xmax: Scalar,
    pub ymax: Scalar,
}

/// What the device made of one candidate: the logistic function of its logit,
/// and the corners of its box, which may lie outside the image.
#[derive(Clone, Copy, Debug)]
pub struct Decoded {
    pub score: Scalar,
    pub corners: Corners,
}

/// What the device made of all candidates, in their order, and the size of an
/// image in the numbers of the device.
pub struct DeviceReply {
    pub decoded: Vec<Decoded>,
    pub image_width: Scalar,
    pub image_height: Scalar,
}

/// How many cubes of `units` units it takes to have a unit for each of
/// `positions` positions.
pub open spec fn cubes_for(positions: int, units: int) -> int {
    (positions + units - 1) / units
}

/// Where a spot of an image lies in the order of all spots of all images.
pub open spec fn position(spots: int, image: int, spot: int) -> int {
    image * spots + spot
}

/// The image that a position belongs to.
pub open spec fn image_of(spots: int, position: int) -> int {
    position / spots
}

/// The spot of its image that a position is.
pub open spec fn spot_of(spots: int, position: int) -> int {
    position % spots
}

/// Counts the cubes of `units` units that `positions` positions take.
pub fn count_cubes(positions: usize, units: u32) -> (r: usize)
    requires
        0 < units,
    ensures
        r == cubes_for(positions as int, units as int),
        r <= positions,
{
    let units: usize = units as usize;
    let full: usize = positions / units;
    let rest: usize = positions % units;
    proof {
        let (p, u, q, t) = (positions as int, units as int, full as int, rest as int);
        lemma_fundamental_div_mod(p, u);
        assert(u * q == q * u) by (nonlinear_arith);
        if t == 0 {
            lemma_fundamental_div_mod_converse(p + u - 1, u, q, u - 1);
        } else {
            assert((q + 1) * u == q * u + u) by (nonlinear_arith);
            lemma_fundamental_div_mod_converse(p + u - 1, u, q + 1, t - 1);
        }
        assert(q <= q * u) by (nonlinear_arith)
            requires
                0 <= q,
                0 < u,
        ;
    }
    if rest == 0 {
        full
    } else {
        full + 1
    }
}

/// `cubecl::prelude::CubeDim::new_1d`, taken apart into its three fields. It is
/// trusted to put `units` units along the first axis and one along the others.
#[verifier::external_body]
pub(crate) fn cube_dim_1d(units: u32) -> (r: (u32, u32, u32))
    ensures
        r == (units, 1u32, 1u32),
{
    let dim = CubeDim::new_1d(units);
    (dim.x, dim.y, dim.z)
}

/// The cubes of a launch have a unit for every position, and the last cube is
/// not idle.
pub proof fn cubes_cover_the_positions(positions: int, units: int)
    requires
        0 <= positions,
        0 < units,
    ensures
        positions <= cubes_for(positions, units) * units,
        0 < positions ==> (cubes_for(positions, units) - 1) * units < positions,
        cubes_for(0, units) == 0,
{
    let cubes = cubes_for(positions, units);
    lemma_fundamental_div_mod(positions + units - 1, units);
    lemma_fundamental_div_mod_converse(units - 1, units, 0, units - 1);
    assert(units * cubes == cubes * units) by (nonlinear_arith);
    assert((cubes - 1) * units == cubes * units - units) by (nonlinear_arith);
}

/// Every position belongs to one unit of one cube of a launch.
pub proof fn every_position_has_one_unit(
    positions: int,
    units: int,
    position: int,
    cube: int,
    unit: int,
)
    requires
        0 <= position < positions,
        0 < units,
        0 <= unit < units,
    ensures
        0 <= position / units < cubes_for(positions, units),
        0 <= position % units < units,
        (cube * units + unit == position) <==> (cube == position / units && unit == position
            % units),
{
    cubes_cover_the_positions(positions, units);
    lemma_fundamental_div_mod(position, units);
    let (q, cubes) = (position / units, cubes_for(positions, units));
    assert(units * q == q * units) by (nonlinear_arith);
    assert(0 <= q < cubes) by (nonlinear_arith)
        requires
            0 < units,
            0 <= position,
            0 <= position - q * units < units,
            position < cubes * units,
    ;
    if cube * units + unit == position {
        lemma_fundamental_div_mod_converse(position, units, cube, unit);
    }
}

/// Positions and pairs of an image and a spot name each other.
pub proof fn positions_name_spots(batch: int, spots: int, image: int, spot: int, at: int)
    requires
        0 <= image < batch,
        0 <= spot < spots,
        0 <= at < batch * spots,
    ensures
        0 <= position(spots, image, spot) < batch * spots,
        image_of(spots, position(spots, image, spot)) == image,
        spot_of(spots, position(spots, image, spot)) == spot,
        0 <= image_of(spots, at) < batch,
        0 <= spot_of(spots, at) < spots,
        position(spots, image_of(spots, at), spot_of(spots, at)) == at,
{
    position_is_in_range(batch, spots, image, spot);
    spot_is_in_range(batch, spots, at);
}

/// A spot of an image of the batch has a position.
pub(crate) proof fn position_is_in_range(batch: int, spots: int, image: int, spot: int)
    requires
        0 <= image < batch,
        0 <= spot < spots,
    ensures
        0 <= position(spots, image, spot) < batch * spots,
        image_of(spots, position(spots, image, spot)) == image,
        spot_of(spots, position(spots, image, spot)) == spot,
{
    assert(0 <= image * spots + spot < batch * spots) by (nonlinear_arith)
        requires
            0 <= image < batch,
            0 <= spot < spots,
    ;
    lemma_fundamental_div_mod_converse(image * spots + spot, spots, image, spot);
}

/// A position belongs to an image of the batch.
pub(crate) proof fn spot_is_in_range(batch: int, spots: int, at: int)
    requires
        0 < spots,
        0 <= at < batch * spots,
    ensures
        0 <= image_of(spots, at) < batch,
        0 <= spot_of(spots, at) < spots,
        position(spots, image_of(spots, at), spot_of(spots, at)) == at,
{
    lemma_fundamental_div_mod(at, spots);
    let image = at / spots;
    assert(spots * image == image * spots) by (nonlinear_arith);
    assert(0 <= image < batch) by (nonlinear_arith)
        requires
            0 < spots,
            0 <= at < batch * spots,
            0 <= at - image * spots < spots,
    ;
}

/// Spots are counted image after image, and in an image in their own order.
pub proof fn positions_count_spots(spots: int, image: int, spot: int)
    requires
        0 <= spot < spots,
    ensures
        position(spots, image, spot) == image * spots + spot,
        image_of(spots, image * spots + spot) == image,
        spot_of(spots, image * spots + spot) == spot,
{
    lemma_fundamental_div_mod_converse(image * spots + spot, spots, image, spot);
}

} // verus!
