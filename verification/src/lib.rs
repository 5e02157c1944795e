//! Repository core for a small CRUD service over two resources: items
//! ("todos") and their labels.
//!
//! The crate holds the storage-agnostic heart of the service: the entity and
//! command types with their validation rules, a closed error taxonomy shared
//! by every backend, a repository capability stated as a trait with full
//! contracts, a verified in-memory backend, and the decision logic of the
//! durable (relational) backend. The transport layer and the SQL driver
//! itself live outside the verified core and call into it with plain values.

pub mod durable;
pub mod errors;
pub mod label;
pub mod laws;
pub mod todo;
