//! Users, roles and hosts.

pub mod file;
pub mod json;
pub mod records;
pub mod settings_patch;
pub mod versions;
