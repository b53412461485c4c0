//! The capability system: chains of UCAN delegations that keep the geometry of
//! Willow's areas.

pub mod area_extract;
pub mod area_facts;
pub mod area_laws;
pub mod chain;
pub mod chain_facts;
pub mod chain_laws;
pub mod command;
pub mod invocation;
pub mod invocation_facts;
pub mod invocation_laws;
pub mod policy;
pub mod policy_laws;
pub mod revocation;
pub mod ucan;

pub use chain::{UWillChain, UWillChainRaw};
pub use command::WillowCommand;
pub use invocation::UWillInvocation;
