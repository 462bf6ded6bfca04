//! Core of a local static-file HTTP host: configuration resolution, path
//! containment, port selection, write staging decisions, content sniffing
//! and template rendering, each with a machine-checked contract.

pub mod options;
pub mod paths;
pub mod ports;
pub mod staging;
pub mod text;
pub mod util;

pub use options::Options;
