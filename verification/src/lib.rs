//! A verified encoder that serializes structured values (records, maps,
//! scalars) into a hierarchical, transactional key-value store.
//!
//! The store is modeled in [`store`]: a tree of named nodes, each holding
//! named scalar values, written under transactions that apply atomically on
//! commit and leave no trace when discarded. The [`encoder`] module holds the
//! core state machine that maps serialization events (stage a field name,
//! emit a scalar, enter or leave a nested record) onto store operations.

pub mod encoder;
pub mod scalar;
pub mod store;
