//! HashDozen: a 48-bit non-cryptographic fingerprint with a human-readable
//! rendering.
//!
//! An arbitrary-length byte sequence (optionally combined with a salt) is
//! reduced to a fixed 6-byte digest, rendered as a 14-character string of
//! 12 uppercase hex digits grouped by dashes (`HHHH-HHHH-HHHH`). The intent
//! is short, searchable table keys, not cryptographic security: there is no
//! resistance to deliberate collision search and no keyed-MAC guarantee.

pub mod hashdozen;
