//! Identity and consistency model for a vendored package store: epochs,
//! normalized names, the registry of vendored packages and the reconciliation
//! of that registry against a dependency resolver's output.

pub mod digits;
pub mod epoch;
pub mod version;
pub mod name;
pub mod registry;
pub mod reconcile;
pub mod orchestrate;
