//! Capabilities for Willow namespaces, expressed as chains of UCAN delegations.
//!
//! - [`proto`] holds the data model: keys, paths, areas, entries.
//! - [`uwill`] holds the capability system: delegation chains, the invocations
//!   that exercise them, and the revocation of delegations.

pub mod assoc;
pub mod form;
pub mod interest;
pub mod proto;
pub mod session;
pub mod store;
pub mod text;
pub mod uwill;
