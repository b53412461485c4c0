//! The data types of the Willow protocol.

pub mod data_model;
pub mod grouping;
pub mod keys;
pub mod meadowcap;
pub mod wgps;
