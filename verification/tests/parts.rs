//! Scalars, tensors, grids and cubes.

use shanan_cv::data::DataBuffer;
use shanan_cv::postprocess::detection::grid::{square_root, Grid};
use shanan_cv::postprocess::detection::launch::count_cubes;
use shanan_cv::scalar::Scalar;

fn num(x: f64) -> Scalar {
    Scalar { bits: x.to_bits() }
}

const SAMPLES: [f64; 14] = [
    f64::NEG_INFINITY,
    f64::MIN,
    -1.5,
    -1.0,
    -5e-324,
    -0.0,
    0.0,
    5e-324,
    0.5,
    1.0,
    1.5,
    f64::MAX,
    f64::INFINITY,
    f64::NAN,
];

#[test]
fn exceeding_is_being_greater() {
    for a in SAMPLES {
        for b in SAMPLES {
            assert_eq!(num(a).exceeds(&num(b)), a > b, "{} and {}", a, b);
        }
    }
    assert!(!num(-f64::NAN).exceeds(&num(0.0)));
}

#[test]
fn only_what_is_not_a_number_is_nan() {
    for a in SAMPLES {
        assert_eq!(num(a).is_nan(), a.is_nan());
        assert_eq!(num(-a).is_nan(), a.is_nan());
    }
}

#[test]
fn ranks_grow() {
    assert_eq!(num(0.0).rank(), 0);
    assert_eq!(num(-0.0).rank(), 0);
    assert_eq!(num(5e-324).rank(), 1);
    assert_eq!(num(-5e-324).rank(), -1);
    assert_eq!(num(1.0).rank(), 0x3ff0_0000_0000_0000);
    assert_eq!(Scalar::zero(), num(0.0));
}

#[test]
fn clamping_is_clamping() {
    for x in SAMPLES {
        for high in [0.0, 1.0, 640.0] {
            let clamped = num(x).clamp(&num(0.0), &num(high));
            assert_eq!(clamped.bits, x.clamp(0.0, high).to_bits(), "{} to {}", x, high);
            assert_eq!(clamped, clamped.clamp(&num(0.0), &num(high)));
        }
    }
}

#[test]
fn elements_are_found_by_strides() {
    let stack = DataBuffer::stack(2, 3, 2, (0..12u32).collect());
    assert_eq!(stack.strides, vec![6, 2, 1]);
    assert_eq!(stack.get(0, 0, 0), 0);
    assert_eq!(stack.get(1, 2, 1), 11);
    let turned = DataBuffer { shape: vec![2, 2, 3], strides: vec![6, 1, 2], values: stack.values };
    assert!(turned.is_readable());
    assert_eq!(turned.get(1, 0, 2), 10);
    let plane = DataBuffer::plane(2, 3, vec![0u8; 6]);
    assert_eq!((plane.shape, plane.strides), (vec![2, 3], vec![3, 1]));
}

#[test]
fn readable_tensors_are_told_from_others() {
    let of = |shape: Vec<usize>, strides: Vec<usize>, count: usize| {
        DataBuffer { shape, strides, values: vec![0u8; count] }.is_readable()
    };
    assert!(of(vec![2, 3, 4], vec![12, 4, 1], 24));
    assert!(!of(vec![2, 3, 4], vec![12, 4, 1], 23));
    assert!(of(vec![2, 3, 4], vec![0, 0, 0], 1));
    assert!(!of(vec![2, 3, 4], vec![0, 0, 0], 0));
    assert!(of(vec![0, 3, 4], vec![12, 4, 1], 0));
    assert!(of(vec![2, 0, usize::MAX], vec![usize::MAX, 4, usize::MAX], 0));
    assert!(!of(vec![3, 1, 1], vec![usize::MAX, 1, 1], 9));
    assert!(!of(vec![2, 2, 1], vec![usize::MAX, 1, 1], 9));
    assert!(!of(vec![2, 1, 2], vec![usize::MAX, 1, 1], 9));
    assert!(!of(vec![2, 3], vec![3, 1], 6));
    assert!(!of(vec![2, 3, 4], vec![4, 1], 24));
}

#[test]
fn square_roots_round_down() {
    assert_eq!(square_root(0), 0);
    assert_eq!(square_root(1), 1);
    assert_eq!(square_root(3), 1);
    assert_eq!(square_root(4), 2);
    assert_eq!(square_root(1023), 31);
    assert_eq!(square_root(1024), 32);
    assert_eq!(square_root(4294836224), 65534);
    assert_eq!(square_root(4294836225), 65535);
    assert_eq!(square_root(u32::MAX), 65535);
}

#[test]
fn grids_are_found_where_they_fit() {
    let grid = Grid::find(640, 1024).unwrap();
    assert_eq!((grid.stride, grid.columns), (32, 20));
    assert_eq!(grid.cell(0), (0, 0));
    assert_eq!(grid.cell(19), (19, 0));
    assert_eq!(grid.cell(20), (0, 1));
    assert_eq!(grid.cell(399), (19, 19));
    assert!(Grid::find(640, 1025).is_none());
    assert!(Grid::find(650, 1024).is_none());
    assert!(Grid::find(640, 0).is_none());
    assert!(Grid::find(0, 1024).is_none());
    assert!(Grid::find(16, 1024).is_none());
}

#[test]
fn cubes_are_rounded_up() {
    assert_eq!(count_cubes(0, 256), 0);
    assert_eq!(count_cubes(1, 256), 1);
    assert_eq!(count_cubes(256, 256), 1);
    assert_eq!(count_cubes(257, 256), 2);
    assert_eq!(count_cubes(400, 1), 400);
    assert_eq!(count_cubes(usize::MAX, 2), usize::MAX / 2 + 1);
    for positions in 0..100usize {
        for units in 1..10u32 {
            let cubes = count_cubes(positions, units);
            assert!(positions <= cubes * units as usize);
            assert!(positions == 0 || (cubes - 1) * (units as usize) < positions);
        }
    }
}
