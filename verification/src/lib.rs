//! Layered, privilege-separated filesystem environments: the rules by which a
//! shared basis and a per-instance system overlay are laid out on disk and
//! combined, for the length of one operation, into a single merged mount.

pub mod quote;
pub mod text;
pub mod layout;
pub mod channel;
pub mod mount;
pub mod lifecycle;
pub mod config;
pub mod runtime;
pub mod shellwords;
