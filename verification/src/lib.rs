//! A read-only virtual filesystem that exposes configured byte ranges of a
//! backing file as individually named flat files.
//!
//! The crate holds the driver's logic: the inode/name catalog, the
//! metadata-freshness policy, attribute derivation, directory pagination and
//! read planning.  All interaction with the operating system (probing the
//! backing file, positioned reads, the mount transport) happens outside, on
//! plain values: callers probe and read, the library decides.

pub mod bytes;
pub mod metadata;
pub mod options;
pub mod rangefs;
pub mod text;
