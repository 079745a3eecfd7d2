//! Resolution of the custom request headers that a provider carries.

pub mod text;
pub mod json;
pub mod wire;
pub mod header_list;
pub mod provider;
pub mod custom;
pub mod laws;
pub mod his_token;
pub mod script;
pub mod his_laws;
