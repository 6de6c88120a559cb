//! A user-record store behind one repository contract.
//!
//! The crate models a small collection of user records (identifier,
//! username, email) kept by interchangeable storage backends.  The
//! in-memory backend is implemented and verified here in full; for the
//! relational and document backends the crate verifies every decision
//! their drivers' event loops have to make: encoding and decoding of
//! stored records, translation of the identifier to and from its
//! canonical text form, the delete-and-return transaction plan, and the
//! classification of native driver failures into the closed error
//! taxonomy.

pub mod api;
pub mod application;
pub mod document;
pub mod idtext;
pub mod laws;
pub mod memory;
pub mod records;
pub mod relational;
pub mod users;
