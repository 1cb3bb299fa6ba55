//! Safe, reversible application of model-generated edits to a source tree,
//! tracked across the steps of a session.
pub mod config;
pub mod context;
pub mod error;
pub mod events;
pub mod files;
pub mod glob;
pub mod laws;
pub mod lines;
pub mod patch;
pub mod replace;
pub mod rust;
pub mod session;
pub mod smart;
pub mod tenx;
pub mod text;
pub mod udiff;
pub mod write;
