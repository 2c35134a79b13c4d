//! Generator packages: how a package directory becomes a structured package,
//! how a configuration document is resolved, and which files a render touches.

pub mod config;
pub mod generator;
pub mod json;
pub mod manifest;
pub mod path;
pub mod render;
pub mod scaffold;
pub mod source;
pub mod store;
pub mod text;
