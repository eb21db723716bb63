//! Moving owned values across a foreign-function boundary as opaque handles,
//! and reclaiming or destroying them exactly once.
//!
//! Exported memory lives in a [`HandleTable`]: each export takes a fresh
//! slot, and a slot is emptied by whichever of reconstruction or destruction
//! consumes its handle.
mod compatibility;
mod result;
mod table;
mod text;

pub use compatibility::{discard, lemma_export_then_reclaim, Compatibility};
pub use result::{
    lemma_discriminant_domain, lemma_failure_envelope_frees_all,
    lemma_success_envelope_keeps_payload, status_byte, FfiResult, Status,
};
pub use table::{live_count_of, Handle, HandleTable, Slots};
pub use text::{c_text, lemma_fresh_text_handle_releasable, nul_free, terminator};
