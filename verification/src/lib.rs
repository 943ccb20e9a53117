//! Manifest discovery for a source tree: classifying the files that describe
//! how a project is built, searching for them from a starting location with a
//! fixed precedence policy, aggregating the findings over many roots, and
//! decoding the output of an external tool invocation.
pub mod abs_path;
pub mod aggregate;
pub mod bytestr;
pub mod error;
pub mod manifest;
pub mod resolve;
pub mod script;
pub mod subprocess;
