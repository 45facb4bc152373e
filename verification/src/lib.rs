//! A configurable HTTP test backend core: a pure header-rewrite pipeline,
//! request-body echo with text validation, fixed artificial latency
//! configuration, and a transparent byte-stream observer.
//!
//! The networking shell (socket handling, the protocol layer, logging output)
//! lives outside this crate; everything here is plain data in, plain data out.

pub mod ascii;
pub mod config;
pub mod conn;
pub mod handler;
pub mod headers;
pub mod spy;
pub mod text;
