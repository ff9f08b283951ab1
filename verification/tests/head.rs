//! Requests, results and refusals of a head.

use cubecl::backtrace::BackTrace;
use cubecl::prelude::LaunchError;
use shanan_cv::data::DataBuffer;
use shanan_cv::postprocess::detection::emission::{finish, postprocess};
use shanan_cv::postprocess::detection::launch::{Corners, Decoded, DeviceReply, LaunchRequest};
use shanan_cv::postprocess::detection::{Yolo26Bc, Yolo26BcConfig, Yolo26BcError};
use shanan_cv::scalar::Scalar;

fn num(x: f64) -> Scalar {
    Scalar { bits: x.to_bits() }
}

fn float(x: &Scalar) -> f64 {
    f64::from_bits(x.bits)
}

fn floats(values: &[Scalar]) -> Vec<f64> {
    values.iter().map(float).collect()
}

fn nums(values: &[f64]) -> Vec<Scalar> {
    values.iter().map(|x| num(*x)).collect()
}

fn head(width: u32, height: u32, dim: u32) -> Yolo26Bc {
    Yolo26BcConfig::default()
        .with_shape(width, height)
        .with_dim(dim)
        .build()
        .unwrap()
}

/// A prediction whose element `(i, j, k)` is `1000 * i + 100 * j + k`.
fn counted(batch: usize, channels: usize, spots: usize) -> DataBuffer<Scalar> {
    let mut values = Vec::new();
    for i in 0..batch {
        for j in 0..channels {
            for k in 0..spots {
                values.push(num((1000 * i + 100 * j + k) as f64));
            }
        }
    }
    DataBuffer::stack(batch, channels, spots, values)
}

/// A reply whose score at position `at` is `at`, and whose corners are
/// `at + 0.1`, `at + 0.2`, `at + 0.3` and `at + 0.4`.
fn numbered(request: &LaunchRequest) -> DeviceReply {
    let mut decoded = Vec::new();
    for at in 0..request.candidates.len() {
        decoded.push(Decoded {
            score: num(at as f64),
            corners: Corners {
                xmin: num(at as f64 + 0.1),
                ymin: num(at as f64 + 0.2),
                xmax: num(at as f64 + 0.3),
                ymax: num(at as f64 + 0.4),
            },
        });
    }
    DeviceReply {
        decoded,
        image_width: num(request.image_width as f64),
        image_height: num(request.image_height as f64),
    }
}

#[test]
fn default_settings_reach_the_request() {
    let head = Yolo26BcConfig::default().build().unwrap();
    let request = head.prepare(&counted(1, 5, 400)).unwrap();
    assert_eq!((request.image_width, request.image_height), (640, 640));
    assert_eq!(request.cube_dim, (1, 1, 1));
    assert_eq!(request.cube_count, (400, 1, 1));
    assert_eq!(request.area, 1024);
    let grid = request.grid.unwrap();
    assert_eq!((grid.stride, grid.columns), (32, 20));
}

#[test]
fn the_last_setting_counts_in_any_order() {
    let pred = counted(1, 5, 6);
    let a = Yolo26BcConfig::default().with_dim(9).with_shape(1, 1).with_dim(4).with_shape(30, 20);
    let b = Yolo26BcConfig::default().with_shape(30, 20).with_dim(4);
    let a = a.build().unwrap().prepare(&pred).unwrap();
    let b = b.build().unwrap().prepare(&pred).unwrap();
    assert_eq!((a.image_width, a.image_height, a.cube_dim), (30, 20, (4, 1, 1)));
    assert_eq!((b.image_width, b.image_height, b.cube_dim), (30, 20, (4, 1, 1)));
    assert_eq!((a.cube_count, a.area), (b.cube_count, b.area));
}

#[test]
fn cubes_cover_all_images() {
    let request = head(64, 64, 256).prepare(&counted(3, 5, 100)).unwrap();
    assert_eq!(request.cube_count, (2, 1, 1));
    assert_eq!(request.cube_dim, (256, 1, 1));
    assert_eq!(request.candidates.len(), 300);
}

#[test]
fn cells_are_numbered_row_by_row() {
    let request = head(96, 64, 1).prepare(&counted(2, 5, 6)).unwrap();
    assert_eq!(request.area, 1024);
    let grid = request.grid.unwrap();
    assert_eq!((grid.stride, grid.columns), (32, 3));
    let cells: Vec<_> = request.candidates.iter().map(|c| (c.spot, c.cell.unwrap())).collect();
    let row = [
        (0, (0, 0)),
        (1, (1, 0)),
        (2, (2, 0)),
        (3, (0, 1)),
        (4, (1, 1)),
        (5, (2, 1)),
    ];
    assert_eq!(cells[..6], row);
    assert_eq!(cells[6..], row);
}

#[test]
fn cells_without_a_whole_side_have_no_grid() {
    // 640 * 480 / 299 is 1027, which is not a square.
    let request = head(640, 480, 1).prepare(&counted(1, 5, 299)).unwrap();
    assert_eq!(request.area, 1027);
    assert!(request.grid.is_none());
    assert!(request.candidates.iter().all(|c| c.cell.is_none()));
    // 50 * 18 / 25 is the square of 6, which does not divide 50.
    let request = head(50, 18, 1).prepare(&counted(1, 5, 25)).unwrap();
    assert_eq!(request.area, 36);
    assert!(request.grid.is_none());
    // More spots than pixels.
    let request = head(2, 2, 1).prepare(&counted(1, 5, 5)).unwrap();
    assert_eq!(request.area, 0);
    assert!(request.grid.is_none());
}

#[test]
fn candidates_read_their_own_channels() {
    let request = head(64, 32, 1).prepare(&counted(2, 7, 2)).unwrap();
    let last = &request.candidates[3];
    assert_eq!(last.spot, 1);
    assert_eq!(last.class, 2);
    assert_eq!(float(&last.logit), 1601.0);
    assert_eq!(float(&last.sides.left), 1001.0);
    assert_eq!(float(&last.sides.top), 1101.0);
    assert_eq!(float(&last.sides.right), 1201.0);
    assert_eq!(float(&last.sides.bottom), 1301.0);
}

#[test]
fn layout_does_not_matter() {
    let rows = counted(2, 7, 3);
    // The same elements with the channels innermost.
    let mut values = vec![num(0.0); 42];
    for i in 0..2 {
        for j in 0..7 {
            for k in 0..3 {
                values[i * 21 + k * 7 + j] = rows.get(i, j, k);
            }
        }
    }
    let columns = DataBuffer { shape: vec![2, 7, 3], strides: vec![21, 1, 7], values };
    let head = head(64, 64, 1);
    assert!(head.accepts(&columns));
    let a = head.prepare(&rows).unwrap();
    let b = head.prepare(&columns).unwrap();
    for (x, y) in a.candidates.iter().zip(b.candidates.iter()) {
        assert_eq!(format!("{:?}", x), format!("{:?}", y));
    }
}

fn class_of(logits: &[f64]) -> usize {
    let mut values = nums(&[0.0; 4]);
    values.extend(nums(logits));
    let pred = DataBuffer::stack(1, 4 + logits.len(), 1, values);
    head(8, 8, 1).prepare(&pred).unwrap().candidates[0].class
}

#[test]
fn the_first_greatest_logit_wins() {
    assert_eq!(class_of(&[5.0]), 0);
    assert_eq!(class_of(&[1.0, 3.0, 2.0]), 1);
    assert_eq!(class_of(&[1.0, 3.0, 3.0, 2.0]), 1);
    assert_eq!(class_of(&[-2.0, -1.0]), 1);
    assert_eq!(class_of(&[-0.0, 0.0]), 0);
    assert_eq!(class_of(&[f64::NEG_INFINITY, -1e300, f64::INFINITY]), 2);
}

#[test]
fn logits_that_are_not_numbers_lose_except_the_first() {
    assert_eq!(class_of(&[1.0, f64::NAN, 2.0]), 2);
    assert_eq!(class_of(&[1.0, f64::NAN]), 0);
    assert_eq!(class_of(&[f64::NAN, 9.0]), 0);
}

#[test]
fn boxes_of_all_images_have_their_places() {
    let (score, cls, bbox) = head(64, 64, 1)
        .execute(&counted(2, 6, 3), num(-1.0), |request| Ok(numbered(request)))
        .unwrap();
    assert_eq!(score.shape, vec![2, 3]);
    assert_eq!(cls.shape, vec![2, 3]);
    assert_eq!(bbox.shape, vec![2, 4, 3]);
    assert_eq!(score.strides, vec![3, 1]);
    assert_eq!(bbox.strides, vec![12, 3, 1]);
    assert_eq!(floats(&score.values), vec![0.0, 1.0, 2.0, 3.0, 4.0, 5.0]);
    assert_eq!(cls.values, vec![1; 6]);
    assert_eq!(
        floats(&bbox.values),
        vec![
            0.1, 1.1, 2.1, 0.2, 1.2, 2.2, 0.3, 1.3, 2.3, 0.4, 1.4, 2.4, //
            3.1, 4.1, 5.1, 3.2, 4.2, 5.2, 3.3, 4.3, 5.3, 3.4, 4.4, 5.4,
        ]
    );
}

#[test]
fn only_scores_above_the_threshold_are_written() {
    let (score, cls, bbox) = head(64, 64, 1)
        .execute(&counted(1, 6, 3), num(1.0), |request| Ok(numbered(request)))
        .unwrap();
    assert_eq!(floats(&score.values), vec![0.0, 0.0, 2.0]);
    assert_eq!(cls.values, vec![0, 0, 1]);
    assert_eq!(
        floats(&bbox.values),
        vec![0.0, 0.0, 2.1, 0.0, 0.0, 2.2, 0.0, 0.0, 2.3, 0.0, 0.0, 2.4]
    );
}

#[test]
fn a_lower_threshold_only_adds() {
    let request = head(64, 64, 1).prepare(&counted(1, 6, 4)).unwrap();
    let reply = numbered(&request);
    let high = finish(&request, &reply, &num(2.0));
    let low = finish(&request, &reply, &num(0.5));
    assert_eq!(floats(&high.0.values), vec![0.0, 0.0, 0.0, 3.0]);
    assert_eq!(floats(&low.0.values), vec![0.0, 1.0, 2.0, 3.0]);
    assert_eq!(high.2.values[15], low.2.values[15]);
}

#[test]
fn nothing_exceeds_a_threshold_that_is_not_a_number() {
    let (score, _, _) = head(64, 64, 1)
        .execute(&counted(1, 6, 3), num(f64::NAN), |request| Ok(numbered(request)))
        .unwrap();
    assert_eq!(floats(&score.values), vec![0.0; 3]);
}

#[test]
fn scores_that_are_not_numbers_are_left_out() {
    let (score, cls, _) = head(64, 64, 1)
        .execute(&counted(1, 6, 2), num(-1.0), |request| {
            let mut reply = numbered(request);
            reply.decoded[0].score = num(f64::NAN);
            Ok(reply)
        })
        .unwrap();
    assert_eq!(floats(&score.values), vec![0.0, 1.0]);
    assert_eq!(cls.values, vec![0, 1]);
}

#[test]
fn boxes_are_cut_at_the_border_of_the_image() {
    let (_, _, bbox) = head(64, 32, 1)
        .execute(&counted(1, 6, 1), num(-1.0), |request| {
            let mut reply = numbered(request);
            reply.decoded[0].corners =
                Corners { xmin: num(-3.0), ymin: num(-0.5), xmax: num(64.5), ymax: num(40.0) };
            Ok(reply)
        })
        .unwrap();
    assert_eq!(floats(&bbox.values), vec![0.0, 0.0, 64.0, 32.0]);
}

#[test]
fn a_unit_without_a_position_writes_nothing() {
    let request = head(64, 64, 4).prepare(&counted(1, 6, 3)).unwrap();
    let reply = numbered(&request);
    let mut score = nums(&[7.0; 3]);
    let mut cls = vec![7; 3];
    let mut bbox = nums(&[7.0; 12]);
    postprocess(3, &request, &reply, &num(-1.0), &mut score, &mut cls, &mut bbox);
    assert_eq!(floats(&score), vec![7.0; 3]);
    assert_eq!(cls, vec![7; 3]);
    assert_eq!(floats(&bbox), vec![7.0; 12]);
    postprocess(1, &request, &reply, &num(-1.0), &mut score, &mut cls, &mut bbox);
    assert_eq!(floats(&score), vec![7.0, 1.0, 7.0]);
    assert_eq!(cls, vec![7, 1, 7]);
    assert_eq!(
        floats(&bbox),
        vec![7.0, 1.1, 7.0, 7.0, 1.2, 7.0, 7.0, 1.3, 7.0, 7.0, 1.4, 7.0]
    );
    postprocess(2, &request, &reply, &num(2.0), &mut score, &mut cls, &mut bbox);
    assert_eq!(floats(&score), vec![7.0, 1.0, 7.0]);
}

#[test]
fn an_empty_batch_gives_empty_outputs() {
    let (score, cls, bbox) = head(64, 64, 8)
        .execute(&counted(0, 6, 3), num(0.0), |request| {
            assert_eq!(request.cube_count, (0, 1, 1));
            Ok(numbered(request))
        })
        .unwrap();
    assert_eq!((score.shape, score.values.len()), (vec![0, 3], 0));
    assert_eq!((cls.shape, cls.values.len()), (vec![0, 3], 0));
    assert_eq!((bbox.shape, bbox.values.len()), (vec![0, 4, 3], 0));
}

#[test]
fn other_numbers_of_axes_are_refused() {
    for shape in [vec![], vec![6], vec![6, 3], vec![1, 1, 6, 3]] {
        let pred = DataBuffer { shape, strides: vec![], values: vec![] };
        let outcome = head(64, 64, 1).execute(&pred, num(0.0), |_| panic!("nothing to launch"));
        match outcome {
            Err(Yolo26BcError::InvalidInputShape(message)) => {
                assert_eq!(message, "分类结果张量形状不正确，预期为 [N, num_classes, S]")
            }
            _ => panic!("not refused"),
        }
    }
}

#[test]
fn a_failed_launch_is_passed_on() {
    let outcome = head(64, 64, 1).execute(&counted(1, 6, 3), num(0.0), |_| {
        Err(LaunchError::Unknown {
            reason: "no device".to_string(),
            backtrace: BackTrace::capture(),
        })
    });
    match outcome {
        Err(Yolo26BcError::LaunchError(LaunchError::Unknown { reason, .. })) => {
            assert_eq!(reason, "no device")
        }
        _ => panic!("not passed on"),
    }
}

#[test]
fn heads_tell_what_they_can_run_on() {
    assert!(head(64, 64, 1).accepts(&counted(1, 5, 1)));
    // No class.
    assert!(!head(64, 64, 1).accepts(&counted(1, 4, 1)));
    // No spot.
    assert!(!head(64, 64, 1).accepts(&counted(1, 5, 0)));
    // No unit.
    assert!(!head(64, 64, 0).accepts(&counted(1, 5, 1)));
    // Two axes.
    let pred = DataBuffer::plane(1, 5, nums(&[0.0; 5]));
    assert!(!head(64, 64, 1).accepts(&pred));
    // More pixels than a `u32` counts.
    assert!(head(65535, 65537, 1).accepts(&counted(1, 5, 1)));
    assert!(!head(65536, 65536, 1).accepts(&counted(1, 5, 1)));
    // An element outside the values.
    let mut pred = counted(1, 5, 2);
    pred.strides[1] = 3;
    assert!(!head(64, 64, 1).accepts(&pred));
    // More coordinates than a `usize` counts.
    let pred = DataBuffer {
        shape: vec![1, 5, usize::MAX / 3],
        strides: vec![0, 0, 0],
        values: nums(&[1.0]),
    };
    assert!(!head(64, 64, 1).accepts(&pred));
    // More cubes than a `u32` counts.
    let spots = 1usize << 33;
    let pred =
        DataBuffer { shape: vec![1, 5, spots], strides: vec![0, 0, 0], values: nums(&[1.0]) };
    assert!(!head(64, 64, 1).accepts(&pred));
    assert!(head(64, 64, 3).accepts(&pred));
}
