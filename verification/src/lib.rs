//! Generates Fedora RPM `.spec` files from Flatpak application repositories
//! that build with Meson.
use vstd::prelude::*;

pub mod text;
pub mod cli;
pub mod cargo;
pub mod pattern;
pub mod appstream;
pub mod forge;
pub mod workspace;
pub mod manifest;
pub mod meson;
pub mod release;
pub mod repository;
pub mod sections;
pub mod spec;

verus! {
}
