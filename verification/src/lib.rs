//! A verified engine for the classic rising-fire screen effect.
//!
//! The engine keeps a grid of palette indices (the fire field), advances it
//! one row-propagation tick at a time, and rasterizes it through an immutable
//! color palette into an RGBA byte buffer. A small surface adapter keeps the
//! grid dimensioned to whatever presentation surface the host reports.
//! Host-specific concerns (window creation, canvas mounting, event loops)
//! stay behind the [`WinitWeb`] capability trait and are implemented outside
//! this crate.

use vstd::prelude::*;

mod adapter;
mod error;
mod field;
mod laws;
mod palette;
mod rng;

pub use adapter::advance_and_render;
pub use adapter::needs_resize;
pub use adapter::reconcile;
pub use adapter::lemma_reconcile_idempotent;
pub use error::FireError;
pub use field::DECAY_MARGIN;
pub use field::FireField;
pub use field::rng_state_after;
pub use field::step_cell_ok;
pub use field::step_rel;
pub use field::stepped_cell;
pub use laws::lemma_cold_propagation;
pub use laws::lemma_invariant_and_ignition_persist;
pub use laws::lemma_monotonic_decay;
pub use laws::lemma_top_margin_stays_cold;
pub use palette::Palette;
pub use palette::Rgba;
pub use rng::FireRng;

verus! {

/// Capability a host window type offers when the render surface lives inside
/// a browser document: mount the surface into the host display and keep its
/// size synchronized with the client area. Implementations are host glue and
/// live outside this crate; the engine itself only ever consumes the surface
/// size as a plain integer pair.
pub trait WinitWeb {
    /// Add the render surface to the host document and enable resize support.
    fn init_web(&self);
}

} // verus!
