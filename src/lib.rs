//! A per-user package manager core: manifest model, install-script parser,
//! installation planning, and a content-addressed transaction store.

pub mod digest;
pub mod text;
pub mod id;
pub mod package;
pub mod store;
pub mod install;
pub mod repo;
pub mod pkgscript;
