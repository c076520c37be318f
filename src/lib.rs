//! A multi-tenant goal board: users own groups, groups own goals, and each
//! goal sits in one of a fixed set of workflow stages.
//!
//! The crate holds the stage model, the owner-scoped repository, the
//! request handlers and the choice between a full page and a fragment.

pub mod model;
pub mod respond;
pub mod routes;
pub mod stage;
pub mod store;
