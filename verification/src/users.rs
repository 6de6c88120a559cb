//! The user entity, the error taxonomy and the repository contract.

use vstd::prelude::*;

verus! {

/// Globally unique identifier of a user record, held as 128 bits split
/// into a high and a low half.
#[derive(Clone, Copy, PartialEq, Eq, Structural, Debug, Hash)]
pub struct UserId {
    pub hi: u64,
    pub lo: u64,
}

/// A user record.  Immutable once created: the repository mints the
/// identifier at creation and the record is read-only thereafter.
#[derive(Debug)]
pub struct User {
    pub id: UserId,
    pub username: String,
    pub email: String,
}

/// The mathematical value of a [`User`].
pub ghost struct UserView {
    pub id: UserId,
    pub username: Seq<char>,
    pub email: Seq<char>,
}

impl View for User {
    type V = UserView;

    open spec fn view(&self) -> UserView {
        UserView { id: self.id, username: self.username@, email: self.email@ }
    }
}

impl Clone for User {
    fn clone(&self) -> (r: User)
        ensures
            r@ == self@,
    {
        User { id: self.id, username: self.username.clone(), email: self.email.clone() }
    }
}

/// A well-formed record carries non-empty username and email text.
pub open spec fn user_wf(u: UserView) -> bool {
    u.username.len() > 0 && u.email.len() > 0
}

/// Relies on uuid::Uuid::new_v4 for a freshly generated random
/// identifier, handed back as its two 64-bit halves.  The value is
/// random: nothing is promised of it.
#[verifier::external_body]
fn mint_id_bits() -> (u64, u64) {
    uuid::Uuid::new_v4().as_u64_pair()
}

/// Mints a fresh identifier.  Collisions among freshly minted
/// identifiers have negligible probability and are deliberately not
/// handled: callers treat the result like any other identifier.
pub fn fresh_user_id() -> UserId {
    let (hi, lo) = mint_id_bits();
    UserId { hi, lo }
}

/// Every repository failure is classified into one of these three
/// kinds before it crosses the contract boundary; no backend-native
/// error object leaks through.
#[derive(Debug)]
pub enum UserRepoError {
    /// The storage medium could not be reached (connection, timeout or
    /// pool failure).  Callers may retry or degrade.
    Unavailable,
    /// The operation violated a uniqueness constraint on the named
    /// field; `value` is the offending input.
    Conflict { field: String, value: String },
    /// Any other failure.  The message is kept for diagnostics only
    /// and must not be interpreted by callers.
    Unexpected { message: String },
}

/// The abstract state of a repository: at most one record per
/// identifier.
pub open spec fn store_put(m: Map<UserId, UserView>, u: UserView) -> Map<UserId, UserView> {
    m.insert(u.id, u)
}

/// What `get` observes of the abstract state: the record under `id`,
/// or nothing.  Absence is not an error.
pub open spec fn store_lookup(m: Map<UserId, UserView>, id: UserId) -> Option<UserView> {
    if m.dom().contains(id) {
        Some(m[id])
    } else {
        None
    }
}

/// The abstract effect of `remove`: the record under `id` is gone,
/// everything else is untouched.
pub open spec fn store_drop(m: Map<UserId, UserView>, id: UserId) -> Map<UserId, UserView> {
    m.remove(id)
}

pub open spec fn opt_user_view(o: Option<User>) -> Option<UserView> {
    match o {
        Some(u) => Some(u@),
        None => None,
    }
}

/// A listing is faithful to the abstract state when it holds exactly
/// the stored records, each exactly once, in some order.
pub open spec fn listing_of(s: Seq<UserView>, m: Map<UserId, UserView>) -> bool {
    &&& s.len() == m.len()
    &&& forall|i: int|
        0 <= i < s.len() ==> m.dom().contains(#[trigger] s[i].id) && m[s[i].id] == s[i]
    &&& forall|i: int, j: int| 0 <= i < j < s.len() ==> s[i].id != s[j].id
    &&& forall|id: UserId|
        m.dom().contains(id) ==> exists|i: int| 0 <= i < s.len() && (#[trigger] s[i]).id == id
}

/// The repository contract.  Every backend implements these four
/// operations with identical external semantics, stated here over the
/// backend's abstract state `users()`.
pub trait UserRepo: Sized {
    /// The records currently stored, keyed by identifier.
    spec fn users(&self) -> Map<UserId, UserView>;

    /// The backend's internal well-formedness.  Implementations must
    /// at least keep the store finite and every record well formed.
    spec fn inv(&self) -> bool;

    /// Mints a fresh identifier, persists a new record and returns the
    /// stored value.  May fail with a classified error; a failed add
    /// leaves the store unchanged.
    fn add_user(&mut self, username: &str, email: &str) -> (r: Result<User, UserRepoError>)
        requires
            old(self).inv(),
            username@.len() > 0,
            email@.len() > 0,
        ensures
            final(self).inv(),
            match r {
                Ok(u) => u@.username == username@ && u@.email == email@ && final(self).users()
                    == store_put(old(self).users(), u@),
                Err(_) => final(self).users() == old(self).users(),
            },
    ;

    /// Returns the record under `id` if present, nothing if absent.
    /// Absence is not an error.
    fn get_user(&self, id: UserId) -> (r: Result<Option<User>, UserRepoError>)
        requires
            self.inv(),
        ensures
            match r {
                Ok(found) => opt_user_view(found) == store_lookup(self.users(), id),
                Err(_) => true,
            },
    ;

    /// If a record is under `id`, atomically deletes it and returns
    /// the value that existed immediately before deletion; if absent,
    /// returns nothing without error.  No partially-applied state: on
    /// an error the store is untouched.
    fn remove_user(&mut self, id: UserId) -> (r: Result<Option<User>, UserRepoError>)
        requires
            old(self).inv(),
        ensures
            final(self).inv(),
            match r {
                Ok(removed) => opt_user_view(removed) == store_lookup(old(self).users(), id)
                    && final(self).users() == store_drop(old(self).users(), id),
                Err(_) => final(self).users() == old(self).users(),
            },
    ;

    /// Returns all current records, in an unspecified order; an empty
    /// store yields an empty sequence, never an error.
    fn list_users(&self) -> (r: Result<Vec<User>, UserRepoError>)
        requires
            self.inv(),
        ensures
            match r {
                Ok(us) => listing_of(us@.map_values(|u: User| u@), self.users()),
                Err(_) => true,
            },
    ;
}

} // verus!
