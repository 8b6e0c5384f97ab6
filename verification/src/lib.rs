//! Device registry: a verified catalog of networked smart-home devices.
//!
//! The registry keeps a persisted, user-editable set of device
//! configurations in sync with an in-memory collection of session entries
//! (configuration plus an optional live driver handle). Driver and store
//! collaborators are external; the reconciliation logic here is verified.

pub mod driver;
pub mod records;
pub mod registry;
pub mod store;
