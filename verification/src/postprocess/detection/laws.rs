//! What a run of a head comes to, in terms of the values that go in and come out.
//!
//! Throughout, `pred` has the shape `[N, 4 + classes, S]`, and the value for spot
//! `spot` of image `image` stands at `image * S + spot` of what has one value per
//! spot, and at `(image * 4 + coordinate) * S + spot` of the boxes.
use crate::data::{readable_to_the_last_element, stacks_have_no_gaps, DataBuffer};
use crate::postprocess::detection::candidate::{
    channels_are_a_box_and_logits, is_candidate, logits, no_class_beats_the_best,
};
use crate::postprocess::detection::emission::{
    answers, holds_at, in_image, is_result, slot, slots_are_distinct, slots_are_in_range, with_box,
    PPResult,
};
use crate::postprocess::detection::error::Yolo26BcError;
use crate::postprocess::detection::grid::{
    cells_start_inside_the_image, is_grid, shares_use_up_the_image,
};
use crate::postprocess::detection::launch::{
    cubes_cover_the_positions, cubes_for, image_of, position, position_is_in_range, spot_of,
    Corners, DeviceReply, LaunchRequest,
};
use crate::postprocess::detection::yolo26_bc::{
    is_outcome, is_request, runnable, shape_message, Settings,
};
use crate::scalar::Scalar;
use cubecl::prelude::LaunchError;
use vstd::prelude::*;

verus! {

/// A head runs on a prediction exactly if it can be read to its last element and
/// has a class and a spot, and all that is counted can be counted.
pub proof fn heads_run_on_all_that_can_be_counted(settings: Settings, pred: DataBuffer<Scalar>)
    ensures
        runnable(settings, pred) <==> {
            let (n, c, s) = (pred.shape@[0], pred.shape@[1], pred.shape@[2]);
            &&& pred.shape@.len() == 3
            &&& pred.strides@.len() == 3
            &&& n == 0 || (n - 1) * pred.strides@[0] + (c - 1) * pred.strides@[1] + (s - 1)
                * pred.strides@[2] < pred.values@.len()
            &&& 5 <= c
            &&& 1 <= s
            &&& 1 <= settings.dim
            &&& settings.width * settings.height <= 0xffff_ffff
            &&& 4 * s <= usize::MAX
            &&& n * 4 * s <= usize::MAX
            &&& n * s <= 0xffff_ffff * settings.dim
        },
{
    readable_to_the_last_element(pred);
    let positions = pred.shape@[0] * pred.shape@[2];
    let (units, most) = (settings.dim as int, 0xffff_ffffint);
    assert(0 <= positions) by (nonlinear_arith)
        requires
            positions == pred.shape@[0] * pred.shape@[2],
    ;
    if 0 < units {
        cubes_cover_the_positions(positions, units);
        let cubes = cubes_for(positions, units);
        assert(cubes <= most <==> positions <= most * units) by (nonlinear_arith)
            requires
                0 < units,
                positions <= cubes * units,
                0 < positions ==> (cubes - 1) * units < positions,
                positions == 0 ==> cubes == 0,
                0 <= positions,
                most == 0xffff_ffff,
        {
            if cubes <= most {
                assert(cubes * units <= most * units);
            } else {
                assert(most * units <= (cubes - 1) * units);
            }
        }
    }
}

/// A request speaks of the whole batch and of the images that the head was set
/// up for. Its cubes have a unit for every spot, with no cube to spare, and a
/// spot's share of pixels is as great as all spots can have. Its grid is made of
/// squares of that share, in rows as wide as the image, if there are such.
pub proof fn requests_fit_the_batch(
    settings: Settings,
    pred: DataBuffer<Scalar>,
    request: LaunchRequest,
    stride: int,
    columns: int,
)
    requires
        runnable(settings, pred),
        is_request(settings, pred, request),
    ensures
        ({
            let (n, s) = (pred.shape@[0], pred.shape@[2]);
            &&& match request.grid {
                Some(grid) => {
                    &&& 0 < grid.stride
                    &&& 0 < grid.columns
                    &&& grid.stride * grid.stride == request.area
                    &&& grid.columns * grid.stride == settings.width
                },
                None => !(0 < stride && 0 < columns && stride * stride == request.area && columns
                    * stride == settings.width),
            }
            &&& request.batch == n
            &&& request.spots == s
            &&& request.image_width == settings.width
            &&& request.image_height == settings.height
            &&& request.area * s <= settings.width * settings.height < (request.area + 1) * s
            &&& request.cube_dim.0 == settings.dim
            &&& request.cube_dim.1 == 1
            &&& request.cube_dim.2 == 1
            &&& request.cube_count.1 == 1
            &&& request.cube_count.2 == 1
            &&& n * s <= request.cube_count.0 * settings.dim
            &&& 0 < n * s ==> (request.cube_count.0 - 1) * settings.dim < n * s
            &&& n * s == 0 ==> request.cube_count.0 == 0
            &&& request.candidates@.len() == n * s
        }),
{
    let (n, s) = (pred.shape@[0] as int, pred.shape@[2] as int);
    assert(0 <= n * s) by (nonlinear_arith)
        requires
            0 <= n,
            0 <= s,
    ;
    cubes_cover_the_positions(n * s, settings.dim as int);
    shares_use_up_the_image(settings.width as int, settings.height as int, s);
    assert(request.grid is None ==> !is_grid(
        settings.width as int,
        request.area as int,
        stride,
        columns,
    ));
}

/// The candidate for a spot of an image is made of the channels of that spot of
/// that image: the first four are its sides, and the channel of its class, after
/// those, is its logit.
pub proof fn candidates_read_their_spot(
    settings: Settings,
    pred: DataBuffer<Scalar>,
    request: LaunchRequest,
    image: int,
    spot: int,
)
    requires
        runnable(settings, pred),
        is_request(settings, pred, request),
        0 <= image < pred.shape@[0],
        0 <= spot < pred.shape@[2],
    ensures
        ({
            let candidate = request.candidates@[image * pred.shape@[2] + spot];
            let start = image * pred.strides@[0] + spot * pred.strides@[2];
            let step = pred.strides@[1];
            &&& 0 <= image * pred.shape@[2] + spot < request.candidates@.len()
            &&& candidate.spot == spot
            &&& candidate.class < pred.shape@[1] - 4
            &&& candidate.logit == pred.values@[start + (4 + candidate.class) * step]
            &&& candidate.sides.left == pred.values@[start]
            &&& candidate.sides.top == pred.values@[start + step]
            &&& candidate.sides.right == pred.values@[start + 2 * step]
            &&& candidate.sides.bottom == pred.values@[start + 3 * step]
        }),
{
    candidate_of_spot(settings, pred, request, image, spot);
    let candidate = request.candidates@[image * pred.shape@[2] + spot];
    channels_are_a_box_and_logits(pred, image, spot, candidate.class as int);
}

/// No class has a greater logit at a spot than the class of its candidate, and
/// none before it has as great a one. If the logit of the first class is not a
/// number, the first class it is.
pub proof fn candidates_have_the_greatest_logit(
    settings: Settings,
    pred: DataBuffer<Scalar>,
    request: LaunchRequest,
    image: int,
    spot: int,
    other: int,
)
    requires
        runnable(settings, pred),
        is_request(settings, pred, request),
        0 <= image < pred.shape@[0],
        0 <= spot < pred.shape@[2],
        0 <= other < pred.shape@[1] - 4,
    ensures
        ({
            let candidate = request.candidates@[image * pred.shape@[2] + spot];
            let start = image * pred.strides@[0] + spot * pred.strides@[2];
            let first = pred.values@[start + 4 * pred.strides@[1]];
            let rival = pred.values@[start + (4 + other) * pred.strides@[1]];
            &&& !rival.spec_exceeds(candidate.logit)
            &&& other < candidate.class && !rival.spec_is_nan() ==> candidate.logit.spec_exceeds(
                rival,
            )
            &&& candidate.logit.spec_is_nan() <==> first.spec_is_nan()
            &&& first.spec_is_nan() ==> candidate.class == 0
        }),
{
    candidate_of_spot(settings, pred, request, image, spot);
    let candidate = request.candidates@[image * pred.shape@[2] + spot];
    channels_are_a_box_and_logits(pred, image, spot, other);
    channels_are_a_box_and_logits(pred, image, spot, 0);
    no_class_beats_the_best(logits(pred, image, spot), candidate.class as int, other);
}

/// Where squares of a spot's share of pixels make rows as wide as the image, the
/// request has them as its grid, and every candidate its column and its row,
/// counted along the rows; the cell starts inside the image. Where they do not,
/// there is neither grid nor cell.
pub proof fn candidates_know_their_cell(
    settings: Settings,
    pred: DataBuffer<Scalar>,
    request: LaunchRequest,
    image: int,
    spot: int,
    stride: int,
    columns: int,
)
    requires
        runnable(settings, pred),
        is_request(settings, pred, request),
        0 <= image < pred.shape@[0],
        0 <= spot < pred.shape@[2],
    ensures
        ({
            let candidate = request.candidates@[image * pred.shape@[2] + spot];
            match (request.grid, candidate.cell) {
                (Some(grid), Some((column, row))) => {
                    &&& 0 < grid.stride
                    &&& grid.stride * grid.stride == request.area
                    &&& grid.columns * grid.stride == settings.width
                    &&& column < grid.columns
                    &&& row * grid.columns + column == spot
                    &&& column * grid.stride < settings.width
                    &&& row * grid.stride < settings.height
                },
                (None, None) => !(0 < stride && 0 < columns && stride * stride == request.area
                    && columns * stride == settings.width),
                _ => false,
            }
        }),
{
    candidate_of_spot(settings, pred, request, image, spot);
    match request.grid {
        Some(grid) => {
            cells_start_inside_the_image(
                settings.width as int,
                settings.height as int,
                pred.shape@[2] as int,
                grid,
                spot,
            );
        },
        None => {
            assert(!is_grid(settings.width as int, request.area as int, stride, columns));
        },
    }
}

/// The candidate of a spot.
proof fn candidate_of_spot(
    settings: Settings,
    pred: DataBuffer<Scalar>,
    request: LaunchRequest,
    image: int,
    spot: int,
)
    requires
        runnable(settings, pred),
        is_request(settings, pred, request),
        0 <= image < pred.shape@[0],
        0 <= spot < pred.shape@[2],
    ensures
        0 <= image * pred.shape@[2] + spot < request.candidates@.len(),
        is_candidate(
            pred,
            request.grid,
            image,
            spot,
            request.candidates@[image * pred.shape@[2] + spot],
        ),
{
    position_is_in_range(pred.shape@[0] as int, pred.shape@[2] as int, image, spot);
    assert(request.candidates@[position(pred.shape@[2] as int, image, spot)]
        == request.candidates@[image * pred.shape@[2] + spot]);
}

/// A reply answers a request exactly if there is one candidate and one answer
/// for every spot of every image, and room for the boxes.
pub proof fn replies_answer_spot_by_spot(request: LaunchRequest, reply: DeviceReply)
    ensures
        answers(request, reply) <==> {
            &&& 1 <= request.spots
            &&& 4 * request.spots <= usize::MAX
            &&& request.batch * 4 * request.spots <= usize::MAX
            &&& request.candidates@.len() == request.batch * request.spots
            &&& reply.decoded@.len() == request.batch * request.spots
        },
{
}

/// Scores and classes come as `[N, S]` and boxes as `[N, 4, S]`, row after row.
pub proof fn outputs_have_their_shapes(
    request: LaunchRequest,
    reply: DeviceReply,
    threshold: Scalar,
    out: PPResult,
)
    requires
        is_result(request, reply, threshold, out),
    ensures
        ({
            let (n, s) = (request.batch, request.spots);
            &&& out.0.shape@ =~= seq![n, s]
            &&& out.0.strides@ =~= seq![s, 1usize]
            &&& out.0.values@.len() == n * s
            &&& out.1.shape@ =~= seq![n, s]
            &&& out.1.strides@ =~= seq![s, 1usize]
            &&& out.1.values@.len() == n * s
            &&& out.2.shape@ =~= seq![n, 4usize, s]
            &&& out.2.strides@.len() == 3
            &&& out.2.strides@[0] == 4 * s
            &&& out.2.strides@[1] == s
            &&& out.2.strides@[2] == 1
            &&& out.2.values@.len() == n * 4 * s
        }),
{
}

/// Where the score of a spot exceeds the threshold, that score and the class of
/// the spot's candidate come out at the index of the spot.
pub proof fn found_spots_keep_their_index(
    request: LaunchRequest,
    reply: DeviceReply,
    threshold: Scalar,
    out: PPResult,
    image: int,
    spot: int,
)
    requires
        is_result(request, reply, threshold, out),
        0 <= image < request.batch,
        0 <= spot < request.spots,
        reply.decoded@[image * request.spots + spot].score.spec_exceeds(threshold),
    ensures
        ({
            let at = image * request.spots + spot;
            &&& 0 <= at < out.0.values@.len()
            &&& 0 <= at < out.1.values@.len()
            &&& out.0.values@[at] == reply.decoded@[at].score
            &&& out.1.values@[at] == request.candidates@[at].class
            &&& out.0.values@[image * out.0.strides@[0] + spot * out.0.strides@[1]]
                == out.0.values@[at]
            &&& out.1.values@[image * out.1.strides@[0] + spot * out.1.strides@[1]]
                == out.1.values@[at]
        }),
{
    spot_of_result(request, reply, threshold, out, image, spot);
    let step = out.0.strides@[1] as int;
    assert(spot * step == spot) by (nonlinear_arith)
        requires
            step == 1,
    ;
}

/// Where the score of a spot exceeds the threshold, each coordinate of its box is
/// kept if it lies in the image, is zero if it lies before it, and is the width
/// of the image, or for a vertical coordinate its height, if it lies behind it.
pub proof fn found_boxes_are_cut_at_the_border(
    request: LaunchRequest,
    reply: DeviceReply,
    threshold: Scalar,
    out: PPResult,
    image: int,
    spot: int,
    coordinate: int,
)
    requires
        is_result(request, reply, threshold, out),
        0 <= image < request.batch,
        0 <= spot < request.spots,
        0 <= coordinate < 4,
        reply.decoded@[image * request.spots + spot].score.spec_exceeds(threshold),
    ensures
        ({
            let corners = reply.decoded@[image * request.spots + spot].corners;
            let before = seq![corners.xmin, corners.ymin, corners.xmax, corners.ymax][coordinate];
            let limit = if coordinate % 2 == 0 {
                reply.image_width
            } else {
                reply.image_height
            };
            let zero = Scalar { bits: 0 };
            let after = out.2.values@[(image * 4 + coordinate) * request.spots + spot];
            &&& 0 <= (image * 4 + coordinate) * request.spots + spot < out.2.values@.len()
            &&& !zero.spec_exceeds(before) && !before.spec_exceeds(limit) ==> after == before
            &&& zero.spec_exceeds(before) ==> after == zero
            &&& before.spec_exceeds(limit) && !zero.spec_exceeds(before) ==> after == limit
        }),
{
    spot_of_result(request, reply, threshold, out, image, spot);
    let (n, s) = (request.batch as int, request.spots as int);
    slots_are_in_range(n, s, position(s, image, spot));
    position_is_in_range(n, s, image, spot);
    assert(slot(s, position(s, image, spot), coordinate) == (image * 4 + coordinate) * s + spot);
}

/// Cutting a box keeps each coordinate that lies in the image, puts it on zero if
/// it lies before, and on the end of its own axis if it lies behind.
pub proof fn cutting_goes_by_axis(
    corners: Corners,
    width: Scalar,
    height: Scalar,
    coordinate: int,
)
    requires
        0 <= coordinate < 4,
    ensures
        ({
            let cut = in_image(corners, width, height);
            let before = seq![corners.xmin, corners.ymin, corners.xmax, corners.ymax][coordinate];
            let after = seq![cut.xmin, cut.ymin, cut.xmax, cut.ymax][coordinate];
            let limit = if coordinate % 2 == 0 {
                width
            } else {
                height
            };
            let zero = Scalar { bits: 0 };
            &&& !zero.spec_exceeds(before) && !before.spec_exceeds(limit) ==> after == before
            &&& zero.spec_exceeds(before) ==> after == zero
            &&& before.spec_exceeds(limit) && !zero.spec_exceeds(before) ==> after == limit
        }),
{
}

/// Where the score of a spot does not exceed the threshold, its score, its class
/// and the four coordinates of its box come out as zero.
pub proof fn other_spots_stay_blank(
    request: LaunchRequest,
    reply: DeviceReply,
    threshold: Scalar,
    out: PPResult,
    image: int,
    spot: int,
)
    requires
        is_result(request, reply, threshold, out),
        0 <= image < request.batch,
        0 <= spot < request.spots,
        !reply.decoded@[image * request.spots + spot].score.spec_exceeds(threshold),
    ensures
        ({
            let s = request.spots;
            &&& out.0.values@[image * s + spot].bits == 0
            &&& out.1.values@[image * s + spot] == 0
            &&& out.2.values@[(image * 4) * s + spot].bits == 0
            &&& out.2.values@[(image * 4 + 1) * s + spot].bits == 0
            &&& out.2.values@[(image * 4 + 2) * s + spot].bits == 0
            &&& out.2.values@[(image * 4 + 3) * s + spot].bits == 0
        }),
{
    spot_of_result(request, reply, threshold, out, image, spot);
}

/// With a threshold that is not negative, the scores that come out tell which
/// spots were found: they exceed the threshold there and nowhere else.
pub proof fn scores_tell_what_was_found(
    request: LaunchRequest,
    reply: DeviceReply,
    threshold: Scalar,
    out: PPResult,
    image: int,
    spot: int,
)
    requires
        is_result(request, reply, threshold, out),
        0 <= image < request.batch,
        0 <= spot < request.spots,
        !(Scalar { bits: 0 }).spec_exceeds(threshold),
    ensures
        out.0.values@[image * request.spots + spot].spec_exceeds(threshold)
            <==> reply.decoded@[image * request.spots + spot].score.spec_exceeds(threshold),
{
    spot_of_result(request, reply, threshold, out, image, spot);
}

/// Score, class and box that come out at a spot of an image, and the channels of
/// the prediction at that spot of that image, all speak of one candidate: the
/// class is the number of the channel, after the four of the box, whose value was
/// scored, and no channel after those four holds a greater value.
pub proof fn outputs_speak_of_their_spot(
    settings: Settings,
    pred: DataBuffer<Scalar>,
    request: LaunchRequest,
    reply: DeviceReply,
    threshold: Scalar,
    out: PPResult,
    image: int,
    spot: int,
    other: int,
)
    requires
        runnable(settings, pred),
        is_request(settings, pred, request),
        is_result(request, reply, threshold, out),
        0 <= image < pred.shape@[0],
        0 <= spot < pred.shape@[2],
        0 <= other < pred.shape@[1] - 4,
        reply.decoded@[image * pred.shape@[2] + spot].score.spec_exceeds(threshold),
    ensures
        ({
            let at = image * pred.shape@[2] + spot;
            let start = image * pred.strides@[0] + spot * pred.strides@[2];
            let step = pred.strides@[1];
            let class = out.1.values@[at];
            let scored = pred.values@[start + (4 + class) * step];
            &&& out.0.values@[at] == reply.decoded@[at].score
            &&& class < pred.shape@[1] - 4
            &&& request.candidates@[at].logit == scored
            &&& request.candidates@[at].sides.left == pred.values@[start]
            &&& request.candidates@[at].sides.top == pred.values@[start + step]
            &&& request.candidates@[at].sides.right == pred.values@[start + 2 * step]
            &&& request.candidates@[at].sides.bottom == pred.values@[start + 3 * step]
            &&& !pred.values@[start + (4 + other) * step].spec_exceeds(scored)
        }),
{
    candidates_read_their_spot(settings, pred, request, image, spot);
    candidates_have_the_greatest_logit(settings, pred, request, image, spot, other);
    found_spots_keep_their_index(request, reply, threshold, out, image, spot);
}

/// What a result holds at a spot, place by place.
proof fn spot_of_result(
    request: LaunchRequest,
    reply: DeviceReply,
    threshold: Scalar,
    out: PPResult,
    image: int,
    spot: int,
)
    requires
        is_result(request, reply, threshold, out),
        0 <= image < request.batch,
        0 <= spot < request.spots,
    ensures
        holds_at(request, reply, threshold, out, image, spot),
        position(request.spots as int, image, spot) == image * request.spots + spot,
        0 <= image * request.spots + spot < request.batch * request.spots,
        out.2.at(image, 0, spot) == out.2.values@[(image * 4) * request.spots + spot],
        out.2.at(image, 1, spot) == out.2.values@[(image * 4 + 1) * request.spots + spot],
        out.2.at(image, 2, spot) == out.2.values@[(image * 4 + 2) * request.spots + spot],
        out.2.at(image, 3, spot) == out.2.values@[(image * 4 + 3) * request.spots + spot],
{
    let (n, s) = (request.batch as int, request.spots as int);
    position_is_in_range(n, s, image, spot);
    stacks_have_no_gaps(out.2, n, 4, s, image, 0, spot);
    stacks_have_no_gaps(out.2, n, 4, s, image, 1, spot);
    stacks_have_no_gaps(out.2, n, 4, s, image, 2, spot);
    stacks_have_no_gaps(out.2, n, 4, s, image, 3, spot);
}

/// Writing the box of a spot of an image puts its coordinates `S` places apart,
/// the first behind all boxes of the images before, and touches no other place.
pub proof fn boxes_are_written_in_their_places(
    bbox: Seq<Scalar>,
    batch: int,
    spots: int,
    image: int,
    spot: int,
    corners: Corners,
    place: int,
)
    requires
        0 <= image < batch,
        0 <= spot < spots,
        bbox.len() == batch * 4 * spots,
        0 <= place < bbox.len(),
    ensures
        ({
            let after = with_box(bbox, spots, image * spots + spot, corners);
            &&& after.len() == bbox.len()
            &&& after[place] == if place == (image * 4) * spots + spot {
                corners.xmin
            } else if place == (image * 4 + 1) * spots + spot {
                corners.ymin
            } else if place == (image * 4 + 2) * spots + spot {
                corners.xmax
            } else if place == (image * 4 + 3) * spots + spot {
                corners.ymax
            } else {
                bbox[place]
            }
        }),
{
    let at = image * spots + spot;
    position_is_in_range(batch, spots, image, spot);
    assert(image_of(spots, at) == image && spot_of(spots, at) == spot);
    slots_are_in_range(batch, spots, at);
    assert(slot(spots, at, 0) == (image * 4) * spots + spot);
    assert(slot(spots, at, 1) == (image * 4 + 1) * spots + spot);
    assert(slot(spots, at, 2) == (image * 4 + 2) * spots + spot);
    assert(slot(spots, at, 3) == (image * 4 + 3) * spots + spot);
    assert forall|k: int, l: int| 0 <= k < l < 4 implies #[trigger] slot(spots, at, k)
        != #[trigger] slot(spots, at, l) by {
        if slot(spots, at, k) == slot(spots, at, l) {
            slots_are_distinct(batch, spots, at, at, k, l);
        }
    }
}

/// A head comes to its outputs if the device answered, and to the device's own
/// error if it did not. To a refusal of the shape it does not come any more.
pub proof fn outcomes_follow_the_device(
    request: LaunchRequest,
    threshold: Scalar,
    reply: Result<DeviceReply, LaunchError>,
    outcome: Result<PPResult, Yolo26BcError>,
)
    requires
        is_outcome(request, threshold, reply, outcome),
    ensures
        reply is Ok <==> outcome is Ok,
        match (reply, outcome) {
            (Ok(answer), Ok(out)) => is_result(request, answer, threshold, out),
            (Err(reason), Err(Yolo26BcError::LaunchError(error))) => error == reason,
            _ => false,
        },
{
}

/// The words of a refusal.
pub proof fn refusals_name_the_expected_shape()
    ensures
        shape_message() == "分类结果张量形状不正确，预期为 [N, num_classes, S]"@,
{
}

} // verus!
