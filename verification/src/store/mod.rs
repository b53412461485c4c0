//! Where capabilities are kept, and what is done with them.

pub mod auth;
pub mod auth_facts;
pub mod auth_laws;
pub mod traits;
