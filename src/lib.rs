//! A catalogue of small scripts: documentation excerpts, a registry sorted by
//! id, captured script output and run results, and the decisions of the
//! hot-reload loop.

pub mod doc;
pub mod host;
pub mod paths;
pub mod registry;
pub mod reload;
pub mod sandbox;
pub mod text;
pub mod value;
