//! The service layer: trivial composition around one repository.

use vstd::prelude::*;

use crate::users::UserRepo;

verus! {

/// Holds the one repository instance the application runs against.
/// The backend is chosen at construction time; the service layer adds
/// no logic of its own.
pub struct Application<U: UserRepo> {
    pub users: U,
}

impl<U: UserRepo> Application<U> {
    /// Wraps the chosen repository.
    pub fn new(users: U) -> (r: Application<U>)
        ensures
            r.users == users,
    {
        Application { users }
    }
}

} // verus!
