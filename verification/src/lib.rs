//! A verified decoder and differ for a school portal's gradebook payloads.
//!
//! The library rebuilds a typed gradebook tree from a flat, already-tokenized
//! sequence of markup events and computes structural differences between two
//! decoded snapshots. Every executable function carries a contract proved by
//! Verus: the decoders are shown equal to a functional specification of the
//! event-stream protocol, the free-text mini-grammars to exact descriptions
//! of their shapes, and the diff engine to a keyed-pairing specification
//! whose partition and key-stability laws are proved alongside it.

pub mod api;
pub mod decoder;
pub mod diff;
pub mod events;
pub mod gradebook;
pub mod grammar;
pub mod keys;
pub mod num;
pub mod text;



