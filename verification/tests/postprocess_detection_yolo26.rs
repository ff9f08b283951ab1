//! The Yolo26 head against a plain calculation in `f32`.
//!
//! What a device does for the head, a logistic function and the corners of the
//! boxes, is done here on the host, in the same arithmetic.

use shanan_cv::data::DataBuffer;
use shanan_cv::postprocess::detection::launch::{Corners, Decoded, DeviceReply, LaunchRequest};
use shanan_cv::postprocess::detection::Yolo26BcConfig;
use shanan_cv::scalar::Scalar;

#[test]
fn test_postprocess_detection_yolo26_cpu_640_640_32() {
    test_postprocess_detection_yolo26::<1, 80, 20, 20, 32>();
}

#[test]
fn test_postprocess_detection_yolo26_wgpu_640_640_32() {
    test_postprocess_detection_yolo26::<1, 80, 20, 20, 32>();
}

#[test]
fn test_postprocess_detection_yolo26_cpu_640_640_64() {
    test_postprocess_detection_yolo26::<1, 80, 10, 10, 64>();
}

#[test]
fn test_postprocess_detection_yolo26_wgpu_640_640_64() {
    test_postprocess_detection_yolo26::<1, 80, 10, 10, 64>();
}

#[test]
fn test_postprocess_detection_yolo26_wgpu_640_640_160() {
    test_postprocess_detection_yolo26::<1, 80, 4, 4, 160>();
}

fn test_postprocess_detection_yolo26<
    const N: usize,
    const C: usize,
    const H: usize,
    const W: usize,
    const S: usize,
>() {
    let random_pred: Vec<f32> = (0..N * (4 + C) * H * W)
        .map(|_| rand::random::<f32>())
        .collect();

    let (score_head, index_head, bbox_head) =
        run_postprocess_detection_yolo26_head(random_pred.clone(), N, C, H, W, S);

    let (score_manual, index_manual, bbox_manual) =
        run_postprocess_detection_yolo26_manual(random_pred, N, C, S, W, H);

    assert_eq!(score_head.len(), score_manual.len());
    assert_eq!(index_head.len(), index_manual.len());
    assert_eq!(bbox_head.len(), bbox_manual.len());

    for (i, (s_head, s_manual)) in score_head.iter().zip(score_manual.iter()).enumerate() {
        assert!(
            (s_head - s_manual).abs() < 1e-5,
            "score {}: head = {}, manual = {}",
            i,
            s_head,
            s_manual
        );
    }

    for (i, (idx_head, idx_manual)) in index_head.iter().zip(index_manual.iter()).enumerate() {
        assert_eq!(
            idx_head, idx_manual,
            "class {}: head = {}, manual = {}",
            i, idx_head, idx_manual
        );
    }

    for (i, (b_head, b_manual)) in bbox_head.iter().zip(bbox_manual.iter()).enumerate() {
        assert!(
            (b_head - b_manual).abs() < 1e-5,
            "coordinate {}: head = {}, manual = {}",
            i,
            b_head,
            b_manual
        );
    }
}

fn run_postprocess_detection_yolo26_head(
    preds: Vec<f32>,
    n: usize,
    c: usize,
    h: usize,
    w: usize,
    s: usize,
) -> (Vec<f32>, Vec<u32>, Vec<f32>) {
    let yolo26 = Yolo26BcConfig::default()
        .with_shape((w * s) as u32, (h * s) as u32)
        .with_dim(256)
        .build()
        .unwrap();

    let values: Vec<Scalar> = preds.iter().map(|v| to_scalar(*v)).collect();
    let pred = DataBuffer::stack(n, 4 + c, h * w, values);
    assert!(yolo26.accepts(&pred));

    let (score, index, bbox) = yolo26
        .execute(&pred, to_scalar(0.0), |request| Ok(decode(request)))
        .unwrap();

    assert_eq!(score.shape, vec![n, h * w]);
    assert_eq!(index.shape, vec![n, h * w]);
    assert_eq!(bbox.shape, vec![n, 4, h * w]);

    (
        score.values.iter().map(|v| from_scalar(*v)).collect(),
        index.values.iter().map(|v| *v as u32).collect(),
        bbox.values.iter().map(|v| from_scalar(*v)).collect(),
    )
}

fn decode(request: &LaunchRequest) -> DeviceReply {
    let stride = (request.area as f32).sqrt();
    let width = request.image_width as f32;
    let mut decoded = Vec::new();
    for candidate in request.candidates.iter() {
        let (column, row) = match candidate.cell {
            Some((column, row)) => (column as f32, row as f32),
            None => {
                let www = width / stride;
                (
                    (candidate.spot as f32 % www).floor(),
                    (candidate.spot as f32 / www).floor(),
                )
            }
        };
        let grid_x = column + 0.5;
        let grid_y = row + 0.5;
        decoded.push(Decoded {
            score: to_scalar(sigmoid(from_scalar(candidate.logit))),
            corners: Corners {
                xmin: to_scalar((grid_x - from_scalar(candidate.sides.left)) * stride),
                ymin: to_scalar((grid_y - from_scalar(candidate.sides.top)) * stride),
                xmax: to_scalar((grid_x + from_scalar(candidate.sides.right)) * stride),
                ymax: to_scalar((grid_y + from_scalar(candidate.sides.bottom)) * stride),
            },
        });
    }
    DeviceReply {
        decoded,
        image_width: to_scalar(width),
        image_height: to_scalar(request.image_height as f32),
    }
}

/// preds: [n, 4 + c, w * h]
fn run_postprocess_detection_yolo26_manual(
    preds: Vec<f32>,
    n: usize,
    c: usize,
    s: usize,
    w: usize,
    h: usize,
) -> (Vec<f32>, Vec<u32>, Vec<f32>) {
    assert_eq!(n, 1);

    let width = w * s;
    let height = h * s;

    let mut score_tensor = vec![0.0; n * w * h];
    let mut index_tensor = vec![0u32; n * w * h];
    let mut bbox_tensor = vec![0.0; n * 4 * w * h];

    let stride = s as f32;
    let spatial = w * h;

    for idx in 0..w * h {
        let (score, class_id) = {
            let mut max_logit = f32::MIN;
            let mut cls_idx = 0usize;
            for i in 0..c {
                // The first four channels are the box.
                let logit = preds[(i + 4) * spatial + idx];
                if logit > max_logit {
                    max_logit = logit;
                    cls_idx = i;
                }
            }
            (sigmoid(max_logit), cls_idx as u32)
        };

        let cx = preds[idx];
        let cy = preds[idx + spatial];
        let cw = preds[idx + spatial * 2];
        let ch = preds[idx + spatial * 3];

        let w_idx = idx % w;
        let h_idx = idx / w;

        let grid_x = (w_idx as f32) + 0.5;
        let grid_y = (h_idx as f32) + 0.5;

        let xmin = ((grid_x - cx) * stride).clamp(0.0, width as f32);
        let ymin = ((grid_y - cy) * stride).clamp(0.0, height as f32);
        let xmax = ((grid_x + cw) * stride).clamp(0.0, width as f32);
        let ymax = ((grid_y + ch) * stride).clamp(0.0, height as f32);

        score_tensor[idx] = score;
        index_tensor[idx] = class_id;

        bbox_tensor[idx] = xmin;
        bbox_tensor[idx + spatial] = ymin;
        bbox_tensor[idx + 2 * spatial] = xmax;
        bbox_tensor[idx + 3 * spatial] = ymax;
    }

    (score_tensor, index_tensor, bbox_tensor)
}

fn sigmoid(x: f32) -> f32 {
    1.0 / (1.0 + (-x).exp())
}

fn to_scalar(x: f32) -> Scalar {
    Scalar { bits: (x as f64).to_bits() }
}

fn from_scalar(x: Scalar) -> f32 {
    f64::from_bits(x.bits) as f32
}
