//! A read-only virtual filesystem that serves a single file whose content is
//! regenerated on every read: a configured username followed by a fresh
//! time-based one-time code derived from a shared secret.
//!
//! The crate is split into the code generator ([`totp`]), the secret decoding
//! front end ([`secret`]), and the virtual tree handler ([`tree`]) that answers
//! the four filesystem operations (lookup, getattr, readdir, read) over a fixed
//! two-node tree.

pub mod secret;
pub mod totp;
pub mod tree;
