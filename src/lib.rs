//! Book lending: the identifiers, records and rules behind checking books
//! out and returning them, with an in-memory store that keeps every
//! invariant of the lending records.

pub mod id;
pub mod error;
pub mod user;
pub mod auth;
pub mod book;
pub mod checkout;
pub mod ordering;
pub mod store;
