//! Two-way structural mapping between the native adjacency data of `ssbh_data`
//! and a dynamic object model, plus the declaration stubs that describe the
//! exposed classes.
pub mod dynamic;
pub mod mapping;
pub mod containers;
pub mod registry;
pub mod adj_data;
pub mod stubs;
pub mod laws;
