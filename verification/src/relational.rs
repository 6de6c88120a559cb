//! Decision logic of the relational backend.
//!
//! The relational driver does the reading and writing; everything the
//! backend decides around those calls is verified here: how a native
//! driver failure is classified into the error taxonomy, and what the
//! delete-and-return transaction does after its read and before its
//! write, so that a caller never observes a partially applied remove.

use vstd::prelude::*;

use crate::records::StoredRecord;
use crate::records::record_user;
use crate::users::User;
use crate::users::UserRepoError;

verus! {

/// What the backend reads off a native relational driver failure
/// before classifying it: the stable structured signals, with the
/// message kept only for the unrecognized rest.
#[derive(Debug)]
pub enum RelationalErrorKind {
    /// The connection pool has been closed.
    PoolClosed,
    /// Waiting for a pooled connection timed out.
    PoolTimedOut,
    /// The database rejected a write that violates the uniqueness
    /// constraint on `field`; `value` is the offending input.
    UniqueViolation { field: String, value: String },
    /// Any other driver failure, kept by message.
    Other { message: String },
}

/// The classification the relational backend applies: a closed or
/// exhausted pool means the store is unreachable, a violated
/// constraint is a conflict, and anything unrecognized stays
/// unexpected — never silently unavailable or conflict.
pub open spec fn relational_classification(kind: RelationalErrorKind) -> UserRepoError {
    match kind {
        RelationalErrorKind::PoolClosed => UserRepoError::Unavailable,
        RelationalErrorKind::PoolTimedOut => UserRepoError::Unavailable,
        RelationalErrorKind::UniqueViolation { field, value } => UserRepoError::Conflict {
            field,
            value,
        },
        RelationalErrorKind::Other { message } => UserRepoError::Unexpected { message },
    }
}

/// Classifies a native relational driver failure into the error
/// taxonomy, exactly as [`relational_classification`] states.
pub fn classify_relational_error(kind: RelationalErrorKind) -> (r: UserRepoError)
    ensures
        r == relational_classification(kind),
{
    match kind {
        RelationalErrorKind::PoolClosed => UserRepoError::Unavailable,
        RelationalErrorKind::PoolTimedOut => UserRepoError::Unavailable,
        RelationalErrorKind::UniqueViolation { field, value } => UserRepoError::Conflict {
            field,
            value,
        },
        RelationalErrorKind::Other { message } => UserRepoError::Unexpected { message },
    }
}

/// What the remove transaction does after reading the row under the
/// identifier, before touching anything.
#[derive(Debug)]
pub enum RemoveAction {
    /// No row was read: roll the transaction back and report absence.
    RollBack,
    /// A row was read and decoded: delete it, commit, and report this
    /// value, read immediately before deletion.
    DeleteAndCommit(User),
}

/// Plans the second half of the remove transaction from what its read
/// fetched.  An absent row rolls back and reports absence without
/// error; a decodable row is deleted and handed back; a row whose
/// stored identifier is malformed aborts the transaction with an
/// unexpected failure, leaving the store untouched.
pub fn plan_remove(fetched: Option<StoredRecord>) -> (r: Result<RemoveAction, UserRepoError>)
    ensures
        match fetched {
            None => r matches Ok(a) && a is RollBack,
            Some(rec) => match record_user(rec@) {
                Some(u) => r matches Ok(a) && a matches RemoveAction::DeleteAndCommit(ret)
                    && ret@ == u,
                None => r matches Err(e) && e matches UserRepoError::Unexpected {
                    message,
                } && message@ == rec@.id_text,
            },
        },
{
    match crate::records::interpret_fetch(fetched) {
        Ok(None) => Ok(RemoveAction::RollBack),
        Ok(Some(user)) => Ok(RemoveAction::DeleteAndCommit(user)),
        Err(e) => Err(e),
    }
}

} // verus!
