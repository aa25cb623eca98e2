//! A generation-validated arena: fixed-capacity rings of slots, grouped into
//! reference-counted sections, where every slot carries a generation counter
//! and a flag word that drives the claim / freeze / wait / recycle protocol.
//!
//! Callers never hold references into the arena. A write hands back a
//! [`Handle`](handle::Handle) that names a slot together with the generation
//! it had when the value was stored; every access is checked against the
//! slot's live generation.

pub mod error;
pub mod flags;
pub mod handle;
pub mod slot;
pub mod section;
pub mod arena;
