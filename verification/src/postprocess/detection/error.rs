//! What can go wrong in a detection head.
use cubecl::prelude::LaunchError;
use vstd::prelude::*;
use vstd::std_specs::convert::{FromSpec, FromSpecImpl};

verus! {

/// `cubecl::prelude::LaunchError`, the reason why a kernel could not be launched.
/// It is carried through unread.
#[verifier::external_type_specification]
#[verifier::external_body]
pub struct ExLaunchError(LaunchError);

/// Why a head gave no result.
#[derive(Debug)]
pub enum Yolo26BcError {
    /// The prediction tensor does not have three axes.
    InvalidInputShape(String),
    /// The device refused the kernel.
    LaunchError(LaunchError),
}

impl FromSpecImpl<LaunchError> for Yolo26BcError {
    open spec fn obeys_from_spec() -> bool {
        true
    }

    open spec fn from_spec(error: LaunchError) -> Self {
        Yolo26BcError::LaunchError(error)
    }
}

impl From<LaunchError> for Yolo26BcError {
    fn from(error: LaunchError) -> (r: Self) {
        Yolo26BcError::LaunchError(error)
    }
}

/// A launch error becomes the error of a head unchanged.
pub proof fn launch_errors_are_kept(error: LaunchError)
    ensures
        <Yolo26BcError as FromSpec<LaunchError>>::obeys_from_spec(),
        <Yolo26BcError as FromSpec<LaunchError>>::from_spec(error) == Yolo26BcError::LaunchError(
            error,
        ),
{
}

} // verus!
