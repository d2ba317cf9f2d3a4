//! Volume and mute control for the system's default (or a named) audio
//! device, abstracted over two interchangeable sound-server integrations.
//!
//! This crate holds the verified core: the data model, the backend
//! selection (fallback) protocol, the native volume-unit conversions, and
//! the parsing and formatting of the CLI control utility's textual
//! protocol. The process and connection plumbing around it hands this
//! library plain values (exit status, captured output bytes) and receives
//! plain values back.

pub mod audio_backend;
