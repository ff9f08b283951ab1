//! Post-processing of YOLO detection heads.
//!
//! A detection head leaves, for every spot of every image of a batch, four
//! distances to the sides of a box and one logit per class. This crate turns
//! such a tensor into a score, a class and a box per spot. The floating-point
//! arithmetic (a logistic function and the corners of the boxes) runs on a
//! compute device; everything that is decided around it is decided, and
//! proved, here.
pub mod data;
pub mod postprocess;
pub mod scalar;
