//! The frame metadata provider: threshold, optional highlight range, and
//! analysis bin list, resolved from the settings store. Missing or malformed
//! data degrades to defaults; the provider itself never fails.

use crate::bins::{bins_of, parse_bins};
use crate::numeral::{
    dec_numeral, fmt_i32, is_signed_numeral, is_unsigned_numeral, lemma_dec_numeral_roundtrip,
    parse_i32, parse_usize, signed_numeral_val, unsigned_numeral_val,
};
use crate::store::{lookup, SettingsEntry, SettingsStore};
use vstd::prelude::*;

verus! {

/// A region of interest: indices `start` (inclusive) to `end` (exclusive)
/// into a frame's sample and spectrum arrays.
#[derive(Clone, Copy, Debug, PartialEq, Eq, Structural)]
pub struct HighlightRange {
    pub start: usize,
    pub end: usize,
}

/// The metadata that travels with one frame.
pub struct FrameMeta {
    pub threshold: i32,
    pub highlight_range: Option<HighlightRange>,
    pub analysis_bins: Vec<usize>,
}

/// The threshold a store denotes: the value under `Execution`/`threshold`
/// when it parses as an `i32`, and `0` otherwise.
pub open spec fn threshold_of(entries: Seq<SettingsEntry>) -> int {
    match lookup(entries, "Execution"@, "threshold"@) {
        Some(v) => if is_signed_numeral(v) && i32::MIN as int <= signed_numeral_val(v)
            && signed_numeral_val(v) <= i32::MAX as int {
            signed_numeral_val(v)
        } else {
            0
        },
        None => 0,
    }
}

/// An optional setting parsed as a `usize`: present only when the key is
/// present and its whole value is an in-range unsigned numeral.
pub open spec fn parsed_usize(v: Option<Seq<char>>) -> Option<int> {
    match v {
        Some(s) => if is_unsigned_numeral(s) && unsigned_numeral_val(s) <= usize::MAX as int {
            Some(unsigned_numeral_val(s))
        } else {
            None
        },
        None => None,
    }
}

/// The highlight range a store denotes: both bounds must be present under
/// `Analysis` and parse as `usize`, or there is no range at all.
pub open spec fn highlight_of(entries: Seq<SettingsEntry>) -> Option<(int, int)> {
    let start = parsed_usize(lookup(entries, "Analysis"@, "highlight_start"@));
    let end = parsed_usize(lookup(entries, "Analysis"@, "highlight_end"@));
    match (start, end) {
        (Some(s), Some(e)) => Some((s, e)),
        _ => None,
    }
}

/// The analysis bin list a store denotes: the parsed `Analysis`/`bins`
/// value, or empty when the key is absent.
pub open spec fn bins_of_store(entries: Seq<SettingsEntry>) -> Seq<usize> {
    match lookup(entries, "Analysis"@, "bins"@) {
        Some(v) => bins_of(v),
        None => Seq::empty(),
    }
}

/// Reads the current frame metadata from a store snapshot. All failures
/// degrade to defaults: threshold `0`, no highlight, no bins.
pub fn load_frame_meta(store: &SettingsStore) -> (r: FrameMeta)
    ensures
        r.threshold as int == threshold_of(store.entries@),
        match r.highlight_range {
            Some(h) => highlight_of(store.entries@) == Some((h.start as int, h.end as int)),
            None => highlight_of(store.entries@) is None,
        },
        r.analysis_bins@ == bins_of_store(store.entries@),
{
    let threshold: i32 = match store.get("Execution", "threshold") {
        Some(v) => match parse_i32(v.as_str()) {
            Some(t) => t,
            None => 0,
        },
        None => 0,
    };
    let start: Option<usize> = match store.get("Analysis", "highlight_start") {
        Some(v) => parse_usize(v.as_str()),
        None => None,
    };
    let end: Option<usize> = match store.get("Analysis", "highlight_end") {
        Some(v) => parse_usize(v.as_str()),
        None => None,
    };
    let highlight_range: Option<HighlightRange> = match (start, end) {
        (Some(s), Some(e)) => Some(HighlightRange { start: s, end: e }),
        _ => None,
    };
    let analysis_bins: Vec<usize> = match store.get("Analysis", "bins") {
        Some(v) => parse_bins(v.as_str()),
        None => Vec::new(),
    };
    FrameMeta { threshold, highlight_range, analysis_bins }
}

/// An entirely empty store denotes the defaults: threshold `0`, no
/// highlight, an empty bin list.
pub proof fn lemma_empty_store_defaults(entries: Seq<SettingsEntry>)
    requires
        entries.len() == 0,
    ensures
        threshold_of(entries) == 0,
        highlight_of(entries) is None,
        bins_of_store(entries) == Seq::<usize>::empty(),
{
}

/// A highlight range is never built from one bound alone: if either bound is
/// absent or unparsable, the store denotes no highlight at all.
pub proof fn lemma_partial_highlight_absent(entries: Seq<SettingsEntry>)
    requires
        parsed_usize(lookup(entries, "Analysis"@, "highlight_start"@)) is None || parsed_usize(
            lookup(entries, "Analysis"@, "highlight_end"@),
        ) is None,
    ensures
        highlight_of(entries) is None,
{
}

/// Persists a new threshold under `Execution`/`threshold`. A later metadata
/// load on the same store reads the value back; the highlight range and the
/// bin list are untouched.
pub fn update_threshold(store: &mut SettingsStore, threshold: i32)
    ensures
        lookup(final(store).entries@, "Execution"@, "threshold"@) == Some(
            dec_numeral(threshold as int),
        ),
        threshold_of(final(store).entries@) == threshold as int,
        highlight_of(final(store).entries@) == highlight_of(old(store).entries@),
        bins_of_store(final(store).entries@) == bins_of_store(old(store).entries@),
{
    let value = fmt_i32(threshold);
    store.set("Execution", "threshold", value);
    proof {
        lemma_dec_numeral_roundtrip(threshold as int);
        reveal_strlit("Execution");
        reveal_strlit("Analysis");
        assert("Execution"@.len() != "Analysis"@.len());
        assert(lookup(store.entries@, "Analysis"@, "highlight_start"@) == lookup(
            old(store).entries@,
            "Analysis"@,
            "highlight_start"@,
        ));
        assert(lookup(store.entries@, "Analysis"@, "highlight_end"@) == lookup(
            old(store).entries@,
            "Analysis"@,
            "highlight_end"@,
        ));
        assert(lookup(store.entries@, "Analysis"@, "bins"@) == lookup(
            old(store).entries@,
            "Analysis"@,
            "bins"@,
        ));
    }
}

} // verus!
