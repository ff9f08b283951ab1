//! The Yolo26 detection head whose channels are a box and the class logits.
use crate::data::DataBuffer;
use crate::postprocess::detection::candidate::{
    candidate_depends_on_its_channels, is_best_class, is_candidate, logits, select, sides_at,
    Candidate, BOX_CHANNELS,
};
use crate::postprocess::detection::emission::{
    finish, holds_at, is_result, PPResult, BOX_COORDINATES,
};
use crate::postprocess::detection::error::Yolo26BcError;
use crate::postprocess::detection::grid::{
    grid_is_unique, is_grid, pixels_per_spot, tiling_is_recovered, Grid,
};
use crate::postprocess::detection::launch::{
    count_cubes, cube_dim_1d, cubes_for, image_of, position, position_is_in_range,
    spot_is_in_range, spot_of, DeviceReply, LaunchRequest,
};
use crate::scalar::Scalar;
use cubecl::prelude::LaunchError;
use vstd::prelude::*;

verus! {

/// What a head is set up with.
pub struct Settings {
    /// The width of an image, in pixels.
    pub width: u32,
    /// The height of an image, in pixels.
    pub height: u32,
    /// How many units a cube has.
    pub dim: u32,
}

impl Settings {
    /// These settings for images of another size.
    pub open spec fn with_shape(self, width: u32, height: u32) -> Settings {
        Settings { width, height, dim: self.dim }
    }

    /// These settings for cubes of another size.
    pub open spec fn with_dim(self, dim: u32) -> Settings {
        Settings { width: self.width, height: self.height, dim }
    }
}

/// Sets up a head.
pub struct Yolo26BcConfig {
    width: u32,
    height: u32,
    dim: u32,
}

impl View for Yolo26BcConfig {
    type V = Settings;

    closed spec fn view(&self) -> Settings {
        Settings { width: self.width, height: self.height, dim: self.dim }
    }
}

impl Default for Yolo26BcConfig {
    /// Images of 640 by 640 pixels, and cubes of one unit.
    fn default() -> (r: Self)
        ensures
            r@ == (Settings { width: 640, height: 640, dim: 1 }),
    {
        Yolo26BcConfig { width: 640, height: 640, dim: 1 }
    }
}

impl Yolo26BcConfig {
    /// Sets the size of an image.
    pub fn with_shape(self, width: u32, height: u32) -> (r: Self)
        ensures
            r@ == self@.with_shape(width, height),
            r@.width == width,
            r@.height == height,
            r@.dim == self@.dim,
    {
        let mut config = self;
        config.width = width;
        config.height = height;
        config
    }

    /// Sets the number of units of a cube.
    pub fn with_dim(self, dim: u32) -> (r: Self)
        ensures
            r@ == self@.with_dim(dim),
            r@.width == self@.width,
            r@.height == self@.height,
            r@.dim == dim,
    {
        let mut config = self;
        config.dim = dim;
        config
    }

    /// Makes the head. This never fails.
    pub fn build(self) -> (r: Result<Yolo26Bc, Yolo26BcError>)
        ensures
            r matches Ok(head) && head@ == self@,
    {
        Ok(Yolo26Bc { width: self.width, height: self.height, dim: self.dim })
    }
}

/// A Yolo26 head.
///
/// It takes predictions of shape `[N, 4 + classes, S]`, for `N` images with `S`
/// spots each, and gives scores `[N, S]`, classes `[N, S]` and boxes
/// `[N, 4, S]`. All spots of a prediction belong to cells of one size; the size
/// is found from `S` and the size of an image. Predictions with cells of several
/// sizes are split by size and run one by one.
pub struct Yolo26Bc {
    width: u32,
    height: u32,
    dim: u32,
}

impl View for Yolo26Bc {
    type V = Settings;

    closed spec fn view(&self) -> Settings {
        Settings { width: self.width, height: self.height, dim: self.dim }
    }
}

/// What a head says of a prediction that does not have three axes.
pub open spec fn shape_message() -> Seq<char> {
    "分类结果张量形状不正确，预期为 [N, num_classes, S]"@
}

/// Whether a head can run on a prediction of three axes: there is a class and a
/// spot, cubes have units, and the number of pixels, of coordinates and of cubes
/// fit the integers that count them.
pub open spec fn runnable(settings: Settings, pred: DataBuffer<Scalar>) -> bool {
    let (batch, spots) = (pred.shape@[0], pred.shape@[2]);
    &&& pred.readable()
    &&& BOX_CHANNELS < pred.shape@[1]
    &&& 0 < spots
    &&& 0 < settings.dim
    &&& settings.width * settings.height <= u32::MAX
    &&& BOX_COORDINATES * spots <= usize::MAX
    &&& batch * BOX_COORDINATES * spots <= usize::MAX
    &&& cubes_for(batch * spots, settings.dim as int) <= u32::MAX
}

/// Whether this is the grid of cells of `area` pixels, or there is none.
pub open spec fn is_grid_of(width: int, area: int, grid: Option<Grid>) -> bool {
    match grid {
        Some(grid) => grid.fits(width, area),
        None => forall|stride: int, columns: int| !is_grid(width, area, stride, columns),
    }
}

/// Whether this is the request of a head with these settings on this prediction.
pub open spec fn is_request(
    settings: Settings,
    pred: DataBuffer<Scalar>,
    request: LaunchRequest,
) -> bool {
    let (batch, spots) = (pred.shape@[0] as int, pred.shape@[2] as int);
    let (width, height) = (settings.width as int, settings.height as int);
    &&& request.batch == batch
    &&& request.spots == spots
    &&& request.cube_count.0 == cubes_for(batch * spots, settings.dim as int)
    &&& request.cube_count.1 == 1
    &&& request.cube_count.2 == 1
    &&& request.cube_dim == (settings.dim, 1u32, 1u32)
    &&& request.image_width == width
    &&& request.image_height == height
    &&& request.area == pixels_per_spot(width, height, spots)
    &&& is_grid_of(width, request.area as int, request.grid)
    &&& request.candidates@.len() == batch * spots
    &&& forall|at: int|
        0 <= at < batch * spots ==> is_candidate(
            pred,
            request.grid,
            image_of(spots, at),
            spot_of(spots, at),
            #[trigger] request.candidates@[at],
        )
}

/// Whether a head that made this request comes to `outcome`, given the threshold
/// and the reply: the outputs if the device answered, or else its error.
pub open spec fn is_outcome(
    request: LaunchRequest,
    threshold: Scalar,
    reply: Result<DeviceReply, LaunchError>,
    outcome: Result<PPResult, Yolo26BcError>,
) -> bool {
    match reply {
        Ok(reply) => outcome matches Ok(out) && is_result(request, reply, threshold, out),
        Err(error) => outcome == Err::<PPResult, Yolo26BcError>(Yolo26BcError::LaunchError(error)),
    }
}

impl Yolo26Bc {
    /// Checks whether this head can run on a prediction.
    pub fn accepts(&self, pred: &DataBuffer<Scalar>) -> (r: bool)
        ensures
            r == runnable(self@, *pred),
    {
        if !pred.is_readable() || pred.shape[1] <= BOX_CHANNELS || pred.shape[2] == 0 || self.dim
            == 0 {
            return false;
        }
        let (batch, spots): (usize, usize) = (pred.shape[0], pred.shape[2]);
        proof {
            assert(self.width * self.height <= u64::MAX) by (nonlinear_arith)
                requires
                    0 <= self.width <= u32::MAX,
                    0 <= self.height <= u32::MAX,
            ;
            assert(batch * 4 * spots == batch * (4 * spots)) by (nonlinear_arith);
            assert(batch * spots <= batch * (4 * spots)) by (nonlinear_arith)
                requires
                    0 <= batch,
                    0 <= spots,
            ;
        }
        if self.width as u64 * self.height as u64 > u32::MAX as u64 {
            return false;
        }
        let row: usize = match spots.checked_mul(BOX_COORDINATES) {
            Some(row) => row,
            None => return false,
        };
        if batch.checked_mul(row).is_none() {
            return false;
        }
        count_cubes(batch * spots, self.dim) as u64 <= u32::MAX as u64
    }

    /// Finds out what this head needs the device for.
    pub fn prepare(&self, pred: &DataBuffer<Scalar>) -> (r: Result<LaunchRequest, Yolo26BcError>)
        requires
            pred.has_three_axes() ==> runnable(self@, *pred),
        ensures
            match r {
                Ok(request) => pred.has_three_axes() && is_request(self@, *pred, request),
                Err(Yolo26BcError::InvalidInputShape(message)) => !pred.has_three_axes()
                    && message@ == shape_message(),
                Err(Yolo26BcError::LaunchError(_)) => false,
            },
    {
        if pred.shape.len() != 3 {
            return Err(
                Yolo26BcError::InvalidInputShape(
                    "分类结果张量形状不正确，预期为 [N, num_classes, S]".to_string(),
                ),
            );
        }
        let (batch, spots): (usize, usize) = (pred.shape[0], pred.shape[2]);
        let ghost (n, s) = (batch as int, spots as int);
        proof {
            assert(n * s <= n * 4 * s) by (nonlinear_arith)
                requires
                    0 <= n,
                    0 <= s,
            ;
        }
        let positions: usize = batch * spots;
        let pixels: u32 = self.width * self.height;
        let area: u32 = (pixels as u64 / spots as u64) as u32;
        let grid: Option<Grid> = Grid::find(self.width, area);
        let cubes: usize = count_cubes(positions, self.dim);
        let mut candidates: Vec<Candidate> = Vec::new();
        let mut at: usize = 0;
        while at < positions
            invariant
                pred.readable(),
                BOX_CHANNELS < pred.shape@[1],
                n == pred.shape@[0],
                s == pred.shape@[2],
                s == spots,
                0 < s,
                positions == n * s,
                at <= positions,
                grid matches Some(g) ==> 0 < g.columns,
                candidates@.len() == at,
                forall|i: int|
                    0 <= i < at ==> is_candidate(
                        *pred,
                        grid,
                        image_of(s, i),
                        spot_of(s, i),
                        #[trigger] candidates@[i],
                    ),
            decreases positions - at,
        {
            proof {
                spot_is_in_range(n, s, at as int);
            }
            candidates.push(select(pred, &grid, at / spots, at % spots));
            at = at + 1;
        }
        Ok(
            LaunchRequest {
                batch,
                spots,
                cube_count: (cubes as u32, 1, 1),
                cube_dim: cube_dim_1d(self.dim),
                image_width: self.width,
                image_height: self.height,
                area,
                grid,
                candidates,
            },
        )
    }

    /// Runs this head on a prediction: scores, classes and boxes for every spot
    /// whose score exceeds the threshold. `launch` is handed the request and
    /// answers with what the device made of it, or with the reason why it made
    /// nothing of it.
    pub fn execute<L>(&self, pred: &DataBuffer<Scalar>, threshold: Scalar, launch: L) -> (r: Result<
        PPResult,
        Yolo26BcError,
    >) where L: FnOnce(&LaunchRequest) -> Result<DeviceReply, LaunchError>
        requires
            pred.has_three_axes() ==> runnable(self@, *pred),
            forall|request: &LaunchRequest|
                is_request(self@, *pred, *request) ==> launch.requires((request,)),
            forall|request: &LaunchRequest, reply: DeviceReply|
                launch.ensures((request,), Ok(reply)) ==> reply.decoded@.len()
                    == request.candidates@.len(),
        ensures
            if pred.has_three_axes() {
                exists|request: &LaunchRequest, reply: Result<DeviceReply, LaunchError>|
                    {
                        &&& is_request(self@, *pred, *request)
                        &&& launch.ensures((request,), reply)
                        &&& #[trigger] is_outcome(*request, threshold, reply, r)
                    }
            } else {
                r matches Err(Yolo26BcError::InvalidInputShape(message)) && message@
                    == shape_message()
            },
    {
        let request: LaunchRequest = match self.prepare(pred) {
            Ok(request) => request,
            Err(error) => return Err(error),
        };
        let reply = launch(&request);
        let ghost given = reply;
        let outcome = match reply {
            Ok(reply) => Ok(finish(&request, &reply, &threshold)),
            Err(error) => Err(Yolo26BcError::from(error)),
        };
        assert(is_outcome(request, threshold, given, outcome));
        outcome
    }
}

/// The size of an image and the size of a cube are set independently, and the
/// last value counts.
pub proof fn setters_are_independent(
    settings: Settings,
    width: u32,
    height: u32,
    dim: u32,
    old_width: u32,
    old_height: u32,
    old_dim: u32,
)
    ensures
        settings.with_shape(width, height).with_dim(dim) == settings.with_dim(dim).with_shape(
            width,
            height,
        ),
        settings.with_shape(old_width, old_height).with_shape(width, height)
            == settings.with_shape(width, height),
        settings.with_dim(old_dim).with_dim(dim) == settings.with_dim(dim),
{
}

/// Settings and prediction leave nothing open: there is one request.
pub proof fn request_is_determined(
    settings: Settings,
    pred: DataBuffer<Scalar>,
    a: LaunchRequest,
    b: LaunchRequest,
)
    requires
        runnable(settings, pred),
        is_request(settings, pred, a),
        is_request(settings, pred, b),
    ensures
        a.batch == b.batch,
        a.spots == b.spots,
        a.cube_count == b.cube_count,
        a.cube_dim == b.cube_dim,
        a.image_width == b.image_width,
        a.image_height == b.image_height,
        a.area == b.area,
        a.grid == b.grid,
        a.candidates@ == b.candidates@,
{
    let spots = pred.shape@[2] as int;
    if let (Some(grid_a), Some(grid_b)) = (a.grid, b.grid) {
        grid_is_unique(settings.width as int, a.area as int, grid_a, grid_b);
    }
    assert(a.grid == b.grid);
    assert forall|at: int| 0 <= at < a.candidates@.len() implies a.candidates@[at]
        == b.candidates@[at] by {
        let (image, spot) = (image_of(spots, at), spot_of(spots, at));
        candidate_depends_on_its_channels(
            pred,
            pred,
            a.grid,
            image,
            image,
            spot,
            a.candidates@[at],
            b.candidates@[at],
        );
    }
    assert(a.candidates@ =~= b.candidates@);
}

/// Where `columns` by `rows` cells of `stride` by `stride` pixels tile an image,
/// and every cell has a spot, a head finds the side of the cells, and the column
/// and the row of every spot.
pub proof fn tiles_are_found(
    settings: Settings,
    pred: DataBuffer<Scalar>,
    request: LaunchRequest,
    stride: int,
    columns: int,
    rows: int,
    image: int,
    spot: int,
)
    requires
        runnable(settings, pred),
        is_request(settings, pred, request),
        0 < stride,
        0 < columns,
        0 < rows,
        settings.width == columns * stride,
        settings.height == rows * stride,
        pred.shape@[2] == columns * rows,
        0 <= image < pred.shape@[0],
        0 <= spot < pred.shape@[2],
    ensures
        ({
            let at = position(pred.shape@[2] as int, image, spot);
            &&& request.area == stride * stride
            &&& request.grid matches Some(grid) && grid.stride == stride && grid.columns == columns
            &&& request.candidates@[at].cell matches Some(cell) && cell.0 == spot % columns
                && cell.1 == spot / columns
        }),
{
    let spots = pred.shape@[2] as int;
    tiling_is_recovered(stride, columns, rows);
    position_is_in_range(pred.shape@[0] as int, spots, image, spot);
    assert(is_candidate(
        pred,
        request.grid,
        image,
        spot,
        request.candidates@[position(spots, image, spot)],
    ));
    assert(is_grid(settings.width as int, request.area as int, stride, columns));
    let tiles = Grid { stride: stride as u32, columns: columns as u32 };
    assert(stride <= settings.width && columns <= settings.width) by (nonlinear_arith)
        requires
            settings.width == columns * stride,
            0 < stride,
            0 < columns,
    ;
    assert(tiles.fits(settings.width as int, request.area as int));
    grid_is_unique(settings.width as int, request.area as int, request.grid->0, tiles);
}

/// At every spot whose score exceeds the threshold, the class that a head gives
/// is the best of the classes that the prediction has there, and the device
/// scored the logit of that class.
pub proof fn reported_class_is_best(
    settings: Settings,
    pred: DataBuffer<Scalar>,
    request: LaunchRequest,
    reply: DeviceReply,
    threshold: Scalar,
    out: PPResult,
    image: int,
    spot: int,
)
    requires
        runnable(settings, pred),
        is_request(settings, pred, request),
        is_result(request, reply, threshold, out),
        0 <= image < pred.shape@[0],
        0 <= spot < pred.shape@[2],
        reply.decoded@[position(pred.shape@[2] as int, image, spot)].score.spec_exceeds(threshold),
    ensures
        ({
            let at = position(pred.shape@[2] as int, image, spot);
            let class = out.1.values@[at] as int;
            &&& is_best_class(logits(pred, image, spot), class)
            &&& request.candidates@[at].logit == pred.at(image, BOX_CHANNELS + class, spot)
            &&& request.candidates@[at].sides == sides_at(pred, image, spot)
        }),
{
    let spots = pred.shape@[2] as int;
    position_is_in_range(pred.shape@[0] as int, spots, image, spot);
    assert(holds_at(request, reply, threshold, out, image, spot));
    assert(is_candidate(
        pred,
        request.grid,
        image,
        spot,
        request.candidates@[position(spots, image, spot)],
    ));
}

/// Setting the size of an image sets its width and its height, each to what was
/// given for it, and setting the size of a cube sets that. Neither touches the
/// other.
pub proof fn setters_set_what_they_name(settings: Settings, width: u32, height: u32, dim: u32)
    ensures
        settings.with_shape(width, height).width == width,
        settings.with_shape(width, height).height == height,
        settings.with_shape(width, height).dim == settings.dim,
        settings.with_dim(dim).width == settings.width,
        settings.with_dim(dim).height == settings.height,
        settings.with_dim(dim).dim == dim,
{
}

} // verus!
