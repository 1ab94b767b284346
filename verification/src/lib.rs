//! An ownership-scoped task store.
//!
//! Callers create, list, toggle, and delete task records; a record can be
//! toggled or deleted only by the identity that created it. The store is a
//! pure state machine: `model` gives its mathematical states and transitions,
//! `store` the executable records and operations proved against them, and
//! `laws` the properties that hold of every reachable state.

pub mod laws;
pub mod model;
pub mod store;
