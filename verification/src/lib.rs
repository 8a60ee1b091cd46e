//! Persistence core of a subscription-tracking application: a versioned
//! schema migrator and an idempotent seed loader over a relational store
//! of categories, services and subscriptions.

use vstd::prelude::*;

pub mod migrate;
pub mod models;
pub mod seed;
pub mod store;

verus! {

/// The two failure kinds of this layer.
///
/// `MigrationFailure` is fatal: a schema-changing step could not be applied
/// and startup must abort, leaving the store at its last good version.
/// `ConstraintViolation` is recoverable: an ordinary write broke a
/// uniqueness, enumeration or foreign-key rule and is reported to the caller.
#[derive(Clone, Copy, PartialEq, Eq, Structural, Debug)]
pub enum StoreError {
    MigrationFailure,
    ConstraintViolation,
}

} // verus!
