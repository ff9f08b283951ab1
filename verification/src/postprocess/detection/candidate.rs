//! What a detection head found at one spot, before any arithmetic.
use crate::data::DataBuffer;
use crate::postprocess::detection::grid::{cell_of, Grid};
use crate::scalar::Scalar;
use vstd::prelude::*;

verus! {

/// How many channels of a prediction come before the class channels.
pub const BOX_CHANNELS: usize = 4;

/// The distances from a point to the four sides of the box around it, in cells.
#[derive(Clone, Copy, Debug)]
pub struct Sides {
    pub left: Scalar,
    pub top: Scalar,
    pub right: Scalar,
    pub bottom: Scalar,
}

/// One spot of one image, with the class it most likely belongs to.
#[derive(Clone, Copy, Debug)]
pub struct Candidate {
    /// The number of the spot in its image.
    pub spot: usize,
    /// The column and the row of its cell, where the cells make a grid.
    pub cell: Option<(usize, usize)>,
    /// The class with the greatest logit.
    pub class: usize,
    /// That logit.
    pub logit: Scalar,
    /// The box.
    pub sides: Sides,
}

/// The logits of all classes at one spot of one image.
pub open spec fn logits(pred: DataBuffer<Scalar>, image: int, spot: int) -> Seq<Scalar> {
    Seq::new(
        (pred.shape@[1] - BOX_CHANNELS) as nat,
        |class: int| pred.at(image, BOX_CHANNELS + class, spot),
    )
}

/// Whether `class` is the best of the first `count` classes: no logit exceeds
/// its logit, and of equal logits it is the first. Logits that are not numbers
/// do not take part, except that nothing is better than class 0 if its logit is
/// not a number.
pub open spec fn leads(logits: Seq<Scalar>, count: int, class: int) -> bool {
    &&& 0 <= class < count <= logits.len()
    &&& if logits[0].spec_is_nan() {
        class == 0
    } else {
        &&& !logits[class].spec_is_nan()
        &&& forall|other: int|
            0 <= other < count ==> !(#[trigger] logits[other]).spec_exceeds(logits[class])
        &&& forall|other: int|
            0 <= other < class && !logits[other].spec_is_nan() ==> logits[class].spec_exceeds(
                #[trigger] logits[other],
            )
    }
}

/// Whether `class` is the best of all classes.
pub open spec fn is_best_class(logits: Seq<Scalar>, class: int) -> bool {
    leads(logits, logits.len() as int, class)
}

/// The box at one spot of one image.
pub open spec fn sides_at(pred: DataBuffer<Scalar>, image: int, spot: int) -> Sides {
    Sides {
        left: pred.at(image, 0, spot),
        top: pred.at(image, 1, spot),
        right: pred.at(image, 2, spot),
        bottom: pred.at(image, 3, spot),
    }
}

/// Whether a candidate holds what the prediction says of one spot of one image.
pub open spec fn is_candidate(
    pred: DataBuffer<Scalar>,
    grid: Option<Grid>,
    image: int,
    spot: int,
    candidate: Candidate,
) -> bool {
    &&& candidate.spot == spot
    &&& match (grid, candidate.cell) {
        (Some(grid), Some(cell)) => (cell.0 as int, cell.1 as int) == cell_of(
            spot,
            grid.columns as int,
        ),
        (None, None) => true,
        _ => false,
    }
    &&& is_best_class(logits(pred, image, spot), candidate.class as int)
    &&& candidate.logit == logits(pred, image, spot)[candidate.class as int]
    &&& candidate.sides == sides_at(pred, image, spot)
}

/// Finds the best class at one spot of one image.
pub fn best_class(pred: &DataBuffer<Scalar>, image: usize, spot: usize) -> (r: usize)
    requires
        pred.readable(),
        BOX_CHANNELS < pred.shape@[1],
        image < pred.shape@[0],
        spot < pred.shape@[2],
    ensures
        is_best_class(logits(*pred, image as int, spot as int), r as int),
{
    let ghost all = logits(*pred, image as int, spot as int);
    let channels: usize = pred.shape[1];
    let mut best: usize = BOX_CHANNELS;
    let mut best_logit: Scalar = pred.get(image, BOX_CHANNELS, spot);
    let mut channel: usize = BOX_CHANNELS + 1;
    while channel < channels
        invariant
            pred.readable(),
            channels == pred.shape@[1],
            image < pred.shape@[0],
            spot < pred.shape@[2],
            all == logits(*pred, image as int, spot as int),
            BOX_CHANNELS <= best < channel <= channels,
            best_logit == all[best - BOX_CHANNELS],
            leads(all, channel - BOX_CHANNELS, best - BOX_CHANNELS),
        decreases channels - channel,
    {
        let logit: Scalar = pred.get(image, channel, spot);
        assert(logit == all[channel - BOX_CHANNELS]);
        if logit.exceeds(&best_logit) {
            best_logit = logit;
            best = channel;
        }
        channel = channel + 1;
    }
    best - BOX_CHANNELS
}

/// Collects what the prediction says of one spot of one image.
pub fn select(
    pred: &DataBuffer<Scalar>,
    grid: &Option<Grid>,
    image: usize,
    spot: usize,
) -> (r: Candidate)
    requires
        pred.readable(),
        BOX_CHANNELS < pred.shape@[1],
        image < pred.shape@[0],
        spot < pred.shape@[2],
        grid matches Some(g) ==> 0 < g.columns,
    ensures
        is_candidate(*pred, *grid, image as int, spot as int, r),
{
    let class: usize = best_class(pred, image, spot);
    let cell = match grid {
        Some(grid) => Some(grid.cell(spot)),
        None => None,
    };
    Candidate {
        spot,
        cell,
        class,
        logit: pred.get(image, BOX_CHANNELS + class, spot),
        sides: Sides {
            left: pred.get(image, 0, spot),
            top: pred.get(image, 1, spot),
            right: pred.get(image, 2, spot),
            bottom: pred.get(image, 3, spot),
        },
    }
}

/// There is one best class, no more.
pub proof fn best_class_is_unique(logits: Seq<Scalar>, a: int, b: int)
    requires
        is_best_class(logits, a),
        is_best_class(logits, b),
    ensures
        a == b,
{
    if a < b {
        assert(!logits[b].spec_exceeds(logits[a]));
        assert(!logits[0].spec_is_nan() ==> logits[b].spec_exceeds(logits[a]));
    }
    if b < a {
        assert(!logits[a].spec_exceeds(logits[b]));
        assert(!logits[0].spec_is_nan() ==> logits[a].spec_exceeds(logits[b]));
    }
}

/// Where there are classes, one of them is best.
pub proof fn best_class_exists(logits: Seq<Scalar>) -> (class: int)
    requires
        0 < logits.len(),
    ensures
        is_best_class(logits, class),
{
    best_of_first(logits, logits.len() as int)
}

/// One of the first `count` classes is the best of them.
proof fn best_of_first(logits: Seq<Scalar>, count: int) -> (class: int)
    requires
        0 < count <= logits.len(),
    ensures
        leads(logits, count, class),
    decreases count,
{
    if count == 1 {
        0
    } else {
        let before = best_of_first(logits, count - 1);
        if logits[count - 1].spec_exceeds(logits[before]) {
            count - 1
        } else {
            before
        }
    }
}

/// A candidate depends on the channels of its spot alone: neither on how the
/// values lie in memory, nor on other spots, nor on other images of the batch.
pub proof fn candidate_depends_on_its_channels(
    a: DataBuffer<Scalar>,
    b: DataBuffer<Scalar>,
    grid: Option<Grid>,
    image_a: int,
    image_b: int,
    spot: int,
    from_a: Candidate,
    from_b: Candidate,
)
    requires
        BOX_CHANNELS < a.shape@[1],
        a.shape@[1] == b.shape@[1],
        forall|channel: int|
            0 <= channel < a.shape@[1] ==> #[trigger] a.at(image_a, channel, spot) == b.at(
                image_b,
                channel,
                spot,
            ),
        is_candidate(a, grid, image_a, spot, from_a),
        is_candidate(b, grid, image_b, spot, from_b),
    ensures
        from_a == from_b,
{
    assert(logits(a, image_a, spot) =~= logits(b, image_b, spot));
    best_class_is_unique(logits(a, image_a, spot), from_a.class as int, from_b.class as int);
}

/// Whatever class is compared with the best one, its logit is not greater, and
/// not as great if it comes before. A class whose logit is not a number is best
/// only if it is the first.
pub proof fn no_class_beats_the_best(logits: Seq<Scalar>, best: int, other: int)
    requires
        is_best_class(logits, best),
        0 <= other < logits.len(),
    ensures
        0 <= best < logits.len(),
        !logits[other].spec_exceeds(logits[best]),
        other < best && !logits[other].spec_is_nan() ==> logits[best].spec_exceeds(logits[other]),
        logits[best].spec_is_nan() <==> logits[0].spec_is_nan(),
        logits[0].spec_is_nan() ==> best == 0,
{
}

/// A class that no other class beats is the best one.
pub proof fn what_no_class_beats_is_best(logits: Seq<Scalar>, class: int)
    requires
        0 <= class < logits.len(),
        !logits[0].spec_is_nan(),
        !logits[class].spec_is_nan(),
        forall|other: int|
            0 <= other < logits.len() ==> !(#[trigger] logits[other]).spec_exceeds(logits[class]),
        forall|other: int|
            0 <= other < class ==> (#[trigger] logits[other]).spec_is_nan()
                || logits[class].spec_exceeds(logits[other]),
    ensures
        is_best_class(logits, class),
{
}

/// The logits of a spot are its channels from the fifth on, and its sides the
/// channels before them, from left over top and right to bottom.
pub proof fn channels_are_a_box_and_logits(
    pred: DataBuffer<Scalar>,
    image: int,
    spot: int,
    class: int,
)
    requires
        4 <= pred.shape@[1],
        0 <= class < pred.shape@[1] - 4,
    ensures
        ({
            let start = image * pred.strides@[0] + spot * pred.strides@[2];
            let step = pred.strides@[1];
            let sides = sides_at(pred, image, spot);
            &&& logits(pred, image, spot).len() == pred.shape@[1] - 4
            &&& logits(pred, image, spot)[class] == pred.values@[start + (4 + class) * step]
            &&& sides.left == pred.values@[start]
            &&& sides.top == pred.values@[start + step]
            &&& sides.right == pred.values@[start + 2 * step]
            &&& sides.bottom == pred.values@[start + 3 * step]
        }),
{
    let step = pred.strides@[1] as int;
    assert(0 * step == 0 && 1 * step == step) by (nonlinear_arith);
}

/// Where the first logit is not a number, the first class is the best one.
pub proof fn first_class_wins_without_a_number(logits: Seq<Scalar>)
    requires
        0 < logits.len(),
        logits[0].spec_is_nan(),
    ensures
        is_best_class(logits, 0),
{
}

/// A candidate holds the number of its spot, its cell if there is a grid, the
/// four channels of its box, and the class and the value of the greatest of the
/// channels after those.
pub proof fn candidates_are_made_of_their_channels(
    pred: DataBuffer<Scalar>,
    grid: Option<Grid>,
    image: int,
    spot: int,
    candidate: Candidate,
    other: int,
)
    requires
        is_candidate(pred, grid, image, spot, candidate),
        4 <= pred.shape@[1],
        0 <= other < pred.shape@[1] - 4,
        0 <= spot,
        grid matches Some(g) ==> 0 < g.columns,
    ensures
        ({
            let start = image * pred.strides@[0] + spot * pred.strides@[2];
            let step = pred.strides@[1];
            let first = pred.values@[start + 4 * step];
            let rival = pred.values@[start + (4 + other) * step];
            &&& candidate.spot == spot
            &&& match (grid, candidate.cell) {
                (Some(grid), Some((column, row))) => column < grid.columns && row * grid.columns
                    + column == spot,
                (None, None) => true,
                _ => false,
            }
            &&& candidate.sides.left == pred.values@[start]
            &&& candidate.sides.top == pred.values@[start + step]
            &&& candidate.sides.right == pred.values@[start + 2 * step]
            &&& candidate.sides.bottom == pred.values@[start + 3 * step]
            &&& candidate.class < pred.shape@[1] - 4
            &&& candidate.logit == pred.values@[start + (4 + candidate.class) * step]
            &&& !rival.spec_exceeds(candidate.logit)
            &&& other < candidate.class && !rival.spec_is_nan() ==> candidate.logit.spec_exceeds(
                rival,
            )
            &&& candidate.logit.spec_is_nan() <==> first.spec_is_nan()
            &&& first.spec_is_nan() ==> candidate.class == 0
        }),
{
    channels_are_a_box_and_logits(pred, image, spot, other);
    channels_are_a_box_and_logits(pred, image, spot, 0);
    channels_are_a_box_and_logits(pred, image, spot, candidate.class as int);
    no_class_beats_the_best(logits(pred, image, spot), candidate.class as int, other);
    if let Some(g) = grid {
        let columns = g.columns as int;
        vstd::arithmetic::div_mod::lemma_fundamental_div_mod(spot, columns);
        let row = spot / columns;
        assert(columns * row == row * columns) by (nonlinear_arith);
    }
}

} // verus!
