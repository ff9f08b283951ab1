//! What happens to the output of a network.
pub mod detection;
