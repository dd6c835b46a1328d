//! A small object store served over HTTP: whole-file uploads are gathered from
//! a chunked body, stored under a given or a freshly allocated name, and served
//! back by name.
//!
//! The verified part holds the decisions: routing a request, gathering the
//! body, allocating a collision-free name with bounded retry, the store's
//! semantics, and the mapping of outcomes to responses.

pub mod names;
pub mod response;
pub mod aggregate;
pub mod allocator;
pub mod store;
pub mod routing;
pub mod service;
pub mod laws;
pub mod query;

pub use query::{Filter, ToDelete, ToInsert, ToUpdate};
