//! What can go wrong in the server, as far as a request is answered with it.

use vstd::prelude::*;

verus! {

#[derive(Clone, Copy, Debug, PartialEq, Eq, Structural)]
pub enum AppError {
    HostNotFound,
    UserNotFound,
    UserAlreadyExists,
    RoleNotFound,
    SessionTokenNotFound,
    BadRequest,
    Forbidden,
    /// The revision of a user's settings cannot grow any further.
    SettingsRevisionExhausted,
    /// The random number generator failed.
    NoRandomness,
}

} // verus!
