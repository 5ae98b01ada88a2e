//! A secure store for key-press logs: decoding raw input-event records,
//! an append-only in-memory log, a byte format for it, and the
//! compress-then-encrypt envelope in which it is kept on disk.

pub mod bytes;
pub mod event;
pub mod keylog;
pub mod format;
pub mod crypto;
pub mod codec;
pub mod legacy;
pub mod capture;
pub mod cli;
