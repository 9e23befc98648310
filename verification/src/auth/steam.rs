//! Steam sign-in: not available yet.
use vstd::prelude::*;

use crate::auth::{AuthError, Challenge, FlowState, LocalSession};

verus! {

/// Steam sign-in cannot start yet.
pub fn begin() -> (r: Result<(Challenge, FlowState), AuthError>)
    ensures
        r == Err::<(Challenge, FlowState), AuthError>(AuthError::NetworkFailure),
{
    Err(AuthError::NetworkFailure)
}

/// Steam sign-in cannot complete yet.
pub fn complete(_flow: FlowState, _proof: &str) -> (r: Result<LocalSession, AuthError>)
    ensures
        r == Err::<LocalSession, AuthError>(AuthError::NetworkFailure),
{
    Err(AuthError::NetworkFailure)
}

} // verus!
