//! Detection heads.
pub mod candidate;
pub mod emission;
pub mod error;
pub mod grid;
pub mod launch;
pub mod laws;
pub mod yolo26_bc;

pub use error::Yolo26BcError;
pub use yolo26_bc::{Yolo26Bc, Yolo26BcConfig};
