//! The sections of a generated spec file.
pub mod stages;
pub mod changelog;
pub mod deps;
pub mod description;
pub mod files;
pub mod header;
pub mod scriptlets;
