//! A portable description of a timed action sequence: an ordered plan of
//! delays and device-action groups, with an optional abort-time fallback
//! plan, meant to be handed to an external automation engine or carried over
//! a wire protocol.
//!
//! The crate models the plan, its duration accounting
//! (`max_expected_duration`, `abort_timeout`) and its tagless wire shape;
//! executing the plan is the consuming engine's business.

pub mod ext;
pub mod model;
pub mod seq;
pub mod seq_owned;
pub mod wire;

pub use seq::{Sequence, SequenceAction, SequenceActionEntry, SequenceEntry};
pub use seq_owned::{
    SequenceActionEntryOwned, SequenceActionOwned, SequenceEntryOwned, SequenceOwned,
};
pub use wire::{WireError, WireValue};
