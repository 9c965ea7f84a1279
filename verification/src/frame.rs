//! The frame record handed to the delivery collaborator, and its assembly
//! from the synthesizer, analyzer and metadata outputs.
//!
//! The sample type is generic: the analyzer outside the library fills the
//! buffers with single-precision power and log-power values, while the
//! assembly itself is independent of what a sample is.

use crate::meta::{
    bins_of_store, highlight_of, load_frame_meta, threshold_of, FrameMeta, HighlightRange,
};
use crate::store::SettingsStore;
use vstd::prelude::*;

verus! {

/// One immutable frame: never mutated after assembly.
pub struct Frame<T> {
    /// Assigned by the delivery collaborator, passed through unchanged.
    pub frame_number: u64,
    /// Normalized power trace.
    pub samples: Vec<T>,
    /// Log-power spectrum, one value per transform bin.
    pub spectrum: Vec<T>,
    /// Display threshold from the settings store.
    pub threshold: i32,
    /// Optional region of interest; absent unless both bounds were readable.
    pub highlight_range: Option<HighlightRange>,
    /// Indices of interest, possibly empty.
    pub analysis_bins: Vec<usize>,
}

/// Packages the pipeline outputs into one frame, changing none of them.
pub fn assemble_frame<T>(frame_number: u64, samples: Vec<T>, spectrum: Vec<T>, meta: FrameMeta) -> (r:
    Frame<T>)
    ensures
        r.frame_number == frame_number,
        r.samples == samples,
        r.spectrum == spectrum,
        r.threshold == meta.threshold,
        r.highlight_range == meta.highlight_range,
        r.analysis_bins == meta.analysis_bins,
{
    Frame {
        frame_number,
        samples,
        spectrum,
        threshold: meta.threshold,
        highlight_range: meta.highlight_range,
        analysis_bins: meta.analysis_bins,
    }
}

/// One production cycle from the core's side: resolve the current metadata
/// from the store and package it with the analyzer's buffers. The buffers
/// pass through unchanged; the metadata fields are exactly what the store
/// denotes.
pub fn produce_frame_record<T>(
    frame_number: u64,
    samples: Vec<T>,
    spectrum: Vec<T>,
    store: &SettingsStore,
) -> (r: Frame<T>)
    ensures
        r.frame_number == frame_number,
        r.samples == samples,
        r.spectrum == spectrum,
        r.threshold as int == threshold_of(store.entries@),
        match r.highlight_range {
            Some(h) => highlight_of(store.entries@) == Some((h.start as int, h.end as int)),
            None => highlight_of(store.entries@) is None,
        },
        r.analysis_bins@ == bins_of_store(store.entries@),
{
    let meta = load_frame_meta(store);
    assemble_frame(frame_number, samples, spectrum, meta)
}

} // verus!
