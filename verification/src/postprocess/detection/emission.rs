//! How scores, classes and boxes are written.
use crate::data::DataBuffer;
use crate::postprocess::detection::launch::{
    image_of, position, position_is_in_range, spot_is_in_range, spot_of, Corners, DeviceReply,
    LaunchRequest,
};
use crate::scalar::Scalar;
use vstd::arithmetic::div_mod::lemma_fundamental_div_mod_converse;
use vstd::prelude::*;

verus! {

/// How many coordinates a box has.
pub const BOX_COORDINATES: usize = 4;

/// The scores and the classes, one of each per spot, and the boxes, four
/// coordinates (`xmin`, `ymin`, `xmax`, `ymax`) per spot.
pub type PPResult = (DataBuffer<Scalar>, DataBuffer<usize>, DataBuffer<Scalar>);

/// Where coordinate `coordinate` of the box at a position is written.
pub open spec fn slot(spots: int, at: int, coordinate: int) -> int {
    (image_of(spots, at) * BOX_COORDINATES + coordinate) * spots + spot_of(spots, at)
}

/// The corners, brought into the image.
pub open spec fn in_image(corners: Corners, width: Scalar, height: Scalar) -> Corners {
    Corners {
        xmin: corners.xmin.spec_clamp(Scalar::spec_zero(), width),
        ymin: corners.ymin.spec_clamp(Scalar::spec_zero(), height),
        xmax: corners.xmax.spec_clamp(Scalar::spec_zero(), width),
        ymax: corners.ymax.spec_clamp(Scalar::spec_zero(), height),
    }
}

/// Whether a request and a reply speak of the same positions, and there is room
/// for the boxes at all of them.
pub open spec fn answers(request: LaunchRequest, reply: DeviceReply) -> bool {
    &&& 0 < request.spots
    &&& BOX_COORDINATES * request.spots <= usize::MAX
    &&& request.batch * BOX_COORDINATES * request.spots <= usize::MAX
    &&& request.candidates@.len() == request.batch * request.spots
    &&& reply.decoded@.len() == request.batch * request.spots
}

/// The boxes after the one at position `at` has been written.
pub open spec fn with_box(
    bbox: Seq<Scalar>,
    spots: int,
    at: int,
    corners: Corners,
) -> Seq<Scalar> {
    bbox.update(slot(spots, at, 0), corners.xmin).update(slot(spots, at, 1), corners.ymin).update(
        slot(spots, at, 2),
        corners.xmax,
    ).update(slot(spots, at, 3), corners.ymax)
}

/// Whether the outputs hold, at one spot of one image, what was found there: its
/// score, its class and its box in the image if the score exceeds the
/// threshold, and zeros otherwise.
pub open spec fn holds_at(
    request: LaunchRequest,
    reply: DeviceReply,
    threshold: Scalar,
    out: PPResult,
    image: int,
    spot: int,
) -> bool {
    let at = position(request.spots as int, image, spot);
    let decoded = reply.decoded@[at];
    let (score, class, corners) = (out.0.values@[at], out.1.values@[at], corners_at(
        out.2,
        image,
        spot,
    ));
    if decoded.score.spec_exceeds(threshold) {
        &&& score == decoded.score
        &&& class == request.candidates@[at].class
        &&& corners == in_image(decoded.corners, reply.image_width, reply.image_height)
    } else {
        &&& score == Scalar::spec_zero()
        &&& class == 0
        &&& corners == no_corners()
    }
}

/// The corners that stand in a tensor of boxes at one spot of one image.
pub open spec fn corners_at(bbox: DataBuffer<Scalar>, image: int, spot: int) -> Corners {
    Corners {
        xmin: bbox.at(image, 0, spot),
        ymin: bbox.at(image, 1, spot),
        xmax: bbox.at(image, 2, spot),
        ymax: bbox.at(image, 3, spot),
    }
}

/// The corners of no box.
pub open spec fn no_corners() -> Corners {
    Corners {
        xmin: Scalar::spec_zero(),
        ymin: Scalar::spec_zero(),
        xmax: Scalar::spec_zero(),
        ymax: Scalar::spec_zero(),
    }
}

/// Whether the outputs have their shapes and hold what was found at every spot
/// of every image.
pub open spec fn is_result(
    request: LaunchRequest,
    reply: DeviceReply,
    threshold: Scalar,
    out: PPResult,
) -> bool {
    let (batch, spots) = (request.batch as int, request.spots as int);
    &&& out.0.is_plane(batch, spots)
    &&& out.1.is_plane(batch, spots)
    &&& out.2.is_stack(batch, BOX_COORDINATES as int, spots)
    &&& forall|image: int, spot: int|
        0 <= image < batch && 0 <= spot < spots ==> #[trigger] holds_at(
            request,
            reply,
            threshold,
            out,
            image,
            spot,
        )
}

/// The work of one unit of a launch: writes the score, the class and the box at
/// position `at`, if there is such a position and its score exceeds the
/// threshold. Writes nothing else.
pub fn postprocess(
    at: usize,
    request: &LaunchRequest,
    reply: &DeviceReply,
    threshold: &Scalar,
    score: &mut Vec<Scalar>,
    cls: &mut Vec<usize>,
    bbox: &mut Vec<Scalar>,
)
    requires
        answers(*request, *reply),
        old(score)@.len() == request.batch * request.spots,
        old(cls)@.len() == request.batch * request.spots,
        old(bbox)@.len() == request.batch * BOX_COORDINATES * request.spots,
    ensures
        ({
            let spots = request.spots as int;
            let decoded = reply.decoded@[at as int];
            if at < request.batch * request.spots && decoded.score.spec_exceeds(*threshold) {
                &&& final(score)@ == old(score)@.update(at as int, decoded.score)
                &&& final(cls)@ == old(cls)@.update(
                    at as int,
                    request.candidates@[at as int].class,
                )
                &&& final(bbox)@ == with_box(
                    old(bbox)@,
                    spots,
                    at as int,
                    in_image(decoded.corners, reply.image_width, reply.image_height),
                )
            } else {
                &&& final(score)@ == old(score)@
                &&& final(cls)@ == old(cls)@
                &&& final(bbox)@ == old(bbox)@
            }
        }),
{
    if at >= reply.decoded.len() {
        return ;
    }
    let spots: usize = request.spots;
    let image: usize = at / spots;
    let spot: usize = at % spots;
    if reply.decoded[at].score.exceeds(threshold) {
        score.set(at, reply.decoded[at].score);
        cls.set(at, request.candidates[at].class);

        let zero: Scalar = Scalar::zero();
        let corners: Corners = reply.decoded[at].corners;
        proof {
            slots_are_in_range(request.batch as int, spots as int, at as int);
            let (first, step) = (image * BOX_COORDINATES, spots as int);
            assert(first * step + step == (first + 1) * step) by (nonlinear_arith);
            assert((first + 1) * step + step == (first + 2) * step) by (nonlinear_arith);
            assert((first + 2) * step + step == (first + 3) * step) by (nonlinear_arith);
            assert(slot(step, at as int, 0) == first * step + spot);
            assert(slot(step, at as int, 1) == (first + 1) * step + spot);
            assert(slot(step, at as int, 2) == (first + 2) * step + spot);
            assert(slot(step, at as int, 3) == (first + 3) * step + spot);
            assert(first <= first * step) by (nonlinear_arith)
                requires
                    0 <= first,
                    0 < step,
            ;
        }
        let base: usize = image * BOX_COORDINATES * spots + spot;
        bbox.set(base, corners.xmin.clamp(&zero, &reply.image_width));
        bbox.set(base + spots, corners.ymin.clamp(&zero, &reply.image_height));
        bbox.set(base + 2 * spots, corners.xmax.clamp(&zero, &reply.image_width));
        bbox.set(base + 3 * spots, corners.ymax.clamp(&zero, &reply.image_height));
    }
}

/// The corners that stand in the places of the box at a position.
pub open spec fn corners_in(bbox: Seq<Scalar>, spots: int, at: int) -> Corners {
    Corners {
        xmin: bbox[slot(spots, at, 0)],
        ymin: bbox[slot(spots, at, 1)],
        xmax: bbox[slot(spots, at, 2)],
        ymax: bbox[slot(spots, at, 3)],
    }
}

/// Whether what was found at a position has been written.
spec fn found_at(
    request: LaunchRequest,
    reply: DeviceReply,
    threshold: Scalar,
    score: Seq<Scalar>,
    cls: Seq<usize>,
    bbox: Seq<Scalar>,
    at: int,
) -> bool {
    let decoded = reply.decoded@[at];
    if decoded.score.spec_exceeds(threshold) {
        &&& score[at] == decoded.score
        &&& cls[at] == request.candidates@[at].class
        &&& corners_in(bbox, request.spots as int, at) == in_image(
            decoded.corners,
            reply.image_width,
            reply.image_height,
        )
    } else {
        blank_at(score, cls, bbox, request.spots as int, at)
    }
}

/// Whether nothing has been written at a position.
spec fn blank_at(
    score: Seq<Scalar>,
    cls: Seq<usize>,
    bbox: Seq<Scalar>,
    spots: int,
    at: int,
) -> bool {
    &&& score[at] == Scalar::spec_zero()
    &&& cls[at] == 0
    &&& corners_in(bbox, spots, at) == no_corners()
}

/// Writes what was found at every position.
pub fn finish(request: &LaunchRequest, reply: &DeviceReply, threshold: &Scalar) -> (r: PPResult)
    requires
        answers(*request, *reply),
    ensures
        is_result(*request, *reply, *threshold, r),
        r.2.readable(),
{
    let (batch, spots): (usize, usize) = (request.batch, request.spots);
    let ghost (n, s) = (batch as int, spots as int);
    let positions: usize = reply.decoded.len();
    proof {
        assert(positions * 4 == n * 4 * s) by (nonlinear_arith)
            requires
                positions == n * s,
        ;
    }
    let zero: Scalar = Scalar::zero();
    let mut score: Vec<Scalar> = vec![zero; positions];
    let mut cls: Vec<usize> = vec![0; positions];
    let mut bbox: Vec<Scalar> = vec![zero; positions * BOX_COORDINATES];
    proof {
        assert forall|j: int| 0 <= j < positions implies #[trigger] blank_at(
            score@,
            cls@,
            bbox@,
            s,
            j,
        ) by {
            slots_are_in_range(n, s, j);
            assert(0 <= slot(s, j, 0) < n * 4 * s);
            assert(0 <= slot(s, j, 1) < n * 4 * s);
            assert(0 <= slot(s, j, 2) < n * 4 * s);
            assert(0 <= slot(s, j, 3) < n * 4 * s);
        }
    }
    let mut at: usize = 0;
    while at < positions
        invariant
            answers(*request, *reply),
            n == request.batch,
            s == request.spots,
            positions == n * s,
            score@.len() == n * s,
            cls@.len() == n * s,
            bbox@.len() == n * 4 * s,
            at <= positions,
            forall|j: int|
                0 <= j < at ==> #[trigger] found_at(
                    *request,
                    *reply,
                    *threshold,
                    score@,
                    cls@,
                    bbox@,
                    j,
                ),
            forall|j: int|
                at <= j < positions ==> #[trigger] blank_at(score@, cls@, bbox@, s, j),
        decreases positions - at,
    {
        let ghost (score_before, cls_before, bbox_before) = (score@, cls@, bbox@);
        assert(blank_at(score@, cls@, bbox@, s, at as int));
        postprocess(at, request, reply, threshold, &mut score, &mut cls, &mut bbox);
        proof {
            let corners = in_image(
                reply.decoded@[at as int].corners,
                reply.image_width,
                reply.image_height,
            );
            writing_a_box_keeps_the_others(bbox_before, n, s, at as int, corners, at as int);
            assert forall|j: int| 0 <= j < at implies #[trigger] found_at(
                *request,
                *reply,
                *threshold,
                score@,
                cls@,
                bbox@,
                j,
            ) by {
                assert(found_at(
                    *request,
                    *reply,
                    *threshold,
                    score_before,
                    cls_before,
                    bbox_before,
                    j,
                ));
                writing_a_box_keeps_the_others(bbox_before, n, s, at as int, corners, j);
            }
            assert forall|j: int| at < j < positions implies #[trigger] blank_at(
                score@,
                cls@,
                bbox@,
                s,
                j,
            ) by {
                assert(blank_at(score_before, cls_before, bbox_before, s, j));
                writing_a_box_keeps_the_others(bbox_before, n, s, at as int, corners, j);
            }
        }
        at = at + 1;
    }
    let out: PPResult = (
        DataBuffer::plane(batch, spots, score),
        DataBuffer::plane(batch, spots, cls),
        DataBuffer::stack(batch, BOX_COORDINATES, spots, bbox),
    );
    proof {
        assert forall|image: int, spot: int| 0 <= image < n && 0 <= spot < s implies #[trigger] holds_at(
            *request,
            *reply,
            *threshold,
            out,
            image,
            spot,
        ) by {
            let at = position(s, image, spot);
            position_is_in_range(n, s, image, spot);
            stack_holds_boxes(out.2, n, s, image, spot);
            assert(found_at(
                *request,
                *reply,
                *threshold,
                out.0.values@,
                out.1.values@,
                out.2.values@,
                at,
            ));
        }
    }
    out
}

/// Writing a box leaves its corners in its places and all other boxes alone.
proof fn writing_a_box_keeps_the_others(
    bbox: Seq<Scalar>,
    batch: int,
    spots: int,
    at: int,
    corners: Corners,
    other: int,
)
    requires
        0 < spots,
        0 <= at < batch * spots,
        0 <= other < batch * spots,
        bbox.len() == batch * BOX_COORDINATES * spots,
    ensures
        with_box(bbox, spots, at, corners).len() == bbox.len(),
        corners_in(with_box(bbox, spots, at, corners), spots, other) == (if other == at {
            corners
        } else {
            corners_in(bbox, spots, other)
        }),
{
    slots_are_in_range(batch, spots, at);
    slots_are_in_range(batch, spots, other);
    assert forall|k: int, l: int|
        0 <= k < BOX_COORDINATES && 0 <= l < BOX_COORDINATES && (other != at || k != l) implies
        #[trigger] slot(spots, at, k) != #[trigger] slot(spots, other, l) by {
        if slot(spots, at, k) == slot(spots, other, l) {
            slots_are_distinct(batch, spots, at, other, k, l);
        }
    }
    assert(0 <= slot(spots, at, 0) < bbox.len());
    assert(0 <= slot(spots, at, 1) < bbox.len());
    assert(0 <= slot(spots, at, 2) < bbox.len());
    assert(0 <= slot(spots, at, 3) < bbox.len());
    assert(0 <= slot(spots, other, 0) < bbox.len());
    assert(0 <= slot(spots, other, 1) < bbox.len());
    assert(0 <= slot(spots, other, 2) < bbox.len());
    assert(0 <= slot(spots, other, 3) < bbox.len());
}

/// In a stack of boxes without gaps, the box at a spot of an image stands in the
/// places of its position.
proof fn stack_holds_boxes(
    bbox: DataBuffer<Scalar>,
    batch: int,
    spots: int,
    image: int,
    spot: int,
)
    requires
        bbox.is_stack(batch, BOX_COORDINATES as int, spots),
        0 <= image < batch,
        0 <= spot < spots,
    ensures
        corners_at(bbox, image, spot) == corners_in(
            bbox.values@,
            spots,
            position(spots, image, spot),
        ),
{
    let at = position(spots, image, spot);
    lemma_fundamental_div_mod_converse(at, spots, image, spot);
    assert forall|k: int| #[trigger] bbox.offset(image, k, spot) == slot(spots, at, k) by {
        let step = bbox.strides@[2] as int;
        assert(image * (4 * spots) + k * spots + spot * step == (image * 4 + k) * spots + spot)
            by (nonlinear_arith)
            requires
                step == 1,
        ;
    }
}

/// The coordinates of a box have places among the coordinates of all boxes.
pub proof fn slots_are_in_range(batch: int, spots: int, at: int)
    requires
        0 < spots,
        0 <= at < batch * spots,
    ensures
        forall|coordinate: int|
            0 <= coordinate < BOX_COORDINATES ==> 0 <= #[trigger] slot(spots, at, coordinate)
                < batch * BOX_COORDINATES * spots,
{
    spot_is_in_range(batch, spots, at);
    let (image, spot) = (image_of(spots, at), spot_of(spots, at));
    assert forall|coordinate: int| 0 <= coordinate < BOX_COORDINATES implies 0 <= #[trigger] slot(
        spots,
        at,
        coordinate,
    ) < batch * BOX_COORDINATES * spots by {
        assert(0 <= (image * 4 + coordinate) * spots + spot < batch * 4 * spots)
            by (nonlinear_arith)
            requires
                0 <= image < batch,
                0 <= coordinate < 4,
                0 <= spot < spots,
        {
            assert(image * 4 + coordinate + 1 <= batch * 4);
            assert((image * 4 + coordinate + 1) * spots <= (batch * 4) * spots);
            assert((image * 4 + coordinate) * spots >= 0);
        }
    }
}

/// No two coordinates, of one box or of two, share a place.
pub proof fn slots_are_distinct(
    batch: int,
    spots: int,
    a: int,
    b: int,
    coordinate_a: int,
    coordinate_b: int,
)
    requires
        0 < spots,
        0 <= a < batch * spots,
        0 <= b < batch * spots,
        0 <= coordinate_a < BOX_COORDINATES,
        0 <= coordinate_b < BOX_COORDINATES,
        slot(spots, a, coordinate_a) == slot(spots, b, coordinate_b),
    ensures
        a == b,
        coordinate_a == coordinate_b,
{
    spot_is_in_range(batch, spots, a);
    spot_is_in_range(batch, spots, b);
    let shared = slot(spots, a, coordinate_a);
    lemma_fundamental_div_mod_converse(
        shared,
        spots,
        image_of(spots, a) * 4 + coordinate_a,
        spot_of(spots, a),
    );
    lemma_fundamental_div_mod_converse(
        shared,
        spots,
        image_of(spots, b) * 4 + coordinate_b,
        spot_of(spots, b),
    );
}

/// Every place among the coordinates of all boxes belongs to one of them.
pub proof fn every_slot_is_used(batch: int, spots: int, place: int) -> (r: (int, int))
    requires
        0 < spots,
        0 <= place < batch * BOX_COORDINATES * spots,
    ensures
        0 <= r.0 < batch * spots,
        0 <= r.1 < BOX_COORDINATES,
        slot(spots, r.0, r.1) == place,
{
    let (line, spot) = (place / spots, place % spots);
    spot_is_in_range(batch * BOX_COORDINATES, spots, place);
    let (image, coordinate) = (line / 4, line % 4);
    position_is_in_range(batch, spots, image, spot);
    (position(spots, image, spot), coordinate)
}

/// Request, reply and threshold leave nothing open: the outputs are the same to
/// the last value.
pub proof fn result_is_determined(
    request: LaunchRequest,
    reply: DeviceReply,
    threshold: Scalar,
    a: PPResult,
    b: PPResult,
)
    requires
        answers(request, reply),
        is_result(request, reply, threshold, a),
        is_result(request, reply, threshold, b),
    ensures
        a.0.values@ == b.0.values@,
        a.1.values@ == b.1.values@,
        a.2.values@ == b.2.values@,
        a.0.shape@ == b.0.shape@,
        a.1.shape@ == b.1.shape@,
        a.2.shape@ == b.2.shape@,
        a.0.strides@ == b.0.strides@,
        a.1.strides@ == b.1.strides@,
        a.2.strides@ == b.2.strides@,
{
    let (batch, spots) = (request.batch as int, request.spots as int);
    assert forall|at: int|
        #![trigger a.0.values@[at]]
        #![trigger a.1.values@[at]]
        0 <= at < batch * spots implies a.0.values@[at] == b.0.values@[at] && a.1.values@[at]
        == b.1.values@[at] by {
        let (image, spot) = (image_of(spots, at), spot_of(spots, at));
        spot_is_in_range(batch, spots, at);
        assert(holds_at(request, reply, threshold, a, image, spot));
        assert(holds_at(request, reply, threshold, b, image, spot));
    }
    assert forall|place: int| 0 <= place < batch * 4 * spots implies a.2.values@[place]
        == #[trigger] b.2.values@[place] by {
        let (at, coordinate) = every_slot_is_used(batch, spots, place);
        let (image, spot) = (image_of(spots, at), spot_of(spots, at));
        spot_is_in_range(batch, spots, at);
        assert(holds_at(request, reply, threshold, a, image, spot));
        assert(holds_at(request, reply, threshold, b, image, spot));
        stack_holds_boxes(a.2, batch, spots, image, spot);
        stack_holds_boxes(b.2, batch, spots, image, spot);
    }
    assert(a.0.values@ =~= b.0.values@);
    assert(a.1.values@ =~= b.1.values@);
    assert(a.2.values@ =~= b.2.values@);
    assert(a.0.shape@ =~= b.0.shape@ && a.1.shape@ =~= b.1.shape@ && a.2.shape@ =~= b.2.shape@);
    assert(a.0.strides@ =~= b.0.strides@);
    assert(a.1.strides@ =~= b.1.strides@);
    assert(a.2.strides@ =~= b.2.strides@);
}

/// A lower threshold only adds: what is found with a higher one is found with a
/// lower one too, with the same score, class and box.
pub proof fn lower_threshold_only_adds(
    request: LaunchRequest,
    reply: DeviceReply,
    low: Scalar,
    high: Scalar,
    with_low: PPResult,
    with_high: PPResult,
    image: int,
    spot: int,
)
    requires
        !low.spec_is_nan(),
        !low.spec_exceeds(high),
        is_result(request, reply, low, with_low),
        is_result(request, reply, high, with_high),
        0 <= image < request.batch,
        0 <= spot < request.spots,
        reply.decoded@[position(request.spots as int, image, spot)].score.spec_exceeds(high),
    ensures
        ({
            let at = position(request.spots as int, image, spot);
            &&& reply.decoded@[at].score.spec_exceeds(low)
            &&& with_low.0.values@[at] == with_high.0.values@[at]
            &&& with_low.1.values@[at] == with_high.1.values@[at]
            &&& corners_at(with_low.2, image, spot) == corners_at(with_high.2, image, spot)
        }),
{
    assert(holds_at(request, reply, low, with_low, image, spot));
    assert(holds_at(request, reply, high, with_high, image, spot));
}

/// A threshold below every score leaves no spot out.
pub proof fn lowest_threshold_leaves_none_out(
    request: LaunchRequest,
    reply: DeviceReply,
    threshold: Scalar,
    out: PPResult,
    image: int,
    spot: int,
)
    requires
        is_result(request, reply, threshold, out),
        answers(request, reply),
        forall|at: int|
            0 <= at < reply.decoded@.len() ==> (#[trigger] reply.decoded@[at]).score.spec_exceeds(
                threshold,
            ),
        0 <= image < request.batch,
        0 <= spot < request.spots,
    ensures
        ({
            let at = position(request.spots as int, image, spot);
            &&& out.0.values@[at] == reply.decoded@[at].score
            &&& out.1.values@[at] == request.candidates@[at].class
            &&& corners_at(out.2, image, spot) == in_image(
                reply.decoded@[at].corners,
                reply.image_width,
                reply.image_height,
            )
        }),
{
    position_is_in_range(request.batch as int, request.spots as int, image, spot);
    assert(holds_at(request, reply, threshold, out, image, spot));
}

/// Boxes lie in the image: where the size of the image is given in numbers that
/// are not negative, no coordinate is below zero or beyond that size.
pub proof fn boxes_lie_in_the_image(
    request: LaunchRequest,
    reply: DeviceReply,
    threshold: Scalar,
    out: PPResult,
    image: int,
    spot: int,
)
    requires
        is_result(request, reply, threshold, out),
        !reply.image_width.spec_is_nan(),
        !reply.image_height.spec_is_nan(),
        !Scalar::spec_zero().spec_exceeds(reply.image_width),
        !Scalar::spec_zero().spec_exceeds(reply.image_height),
        0 <= image < request.batch,
        0 <= spot < request.spots,
    ensures
        ({
            let zero = Scalar::spec_zero();
            let corners = corners_at(out.2, image, spot);
            &&& !zero.spec_exceeds(corners.xmin) && !corners.xmin.spec_exceeds(reply.image_width)
            &&& !zero.spec_exceeds(corners.ymin) && !corners.ymin.spec_exceeds(reply.image_height)
            &&& !zero.spec_exceeds(corners.xmax) && !corners.xmax.spec_exceeds(reply.image_width)
            &&& !zero.spec_exceeds(corners.ymax) && !corners.ymax.spec_exceeds(reply.image_height)
        }),
{
    assert(holds_at(request, reply, threshold, out, image, spot));
}

} // verus!
