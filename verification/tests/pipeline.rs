use pulse_pipeline::bins::parse_bins;
use pulse_pipeline::frame::{assemble_frame, produce_frame_record};
use pulse_pipeline::meta::{load_frame_meta, update_threshold, HighlightRange};
use pulse_pipeline::numeral::{fmt_i32, fmt_u32, parse_i32, parse_usize};
use pulse_pipeline::pulse::{apply_envelope, pulse_mask, SynthError};
use pulse_pipeline::store::SettingsStore;
use pulse_pipeline::text::{str_eq, trim};

fn store_from(entries: &[(&str, &str, &str)]) -> SettingsStore {
    let mut store = SettingsStore::new();
    for (section, key, value) in entries {
        store.push_entry(section.to_string(), key.to_string(), value.to_string());
    }
    store
}

#[test]
fn mask_follows_pulse_schedule() {
    let mask = pulse_mask(7, 2, 3).unwrap();
    assert_eq!(mask, vec![true, true, false, true, true, false, true]);
}

#[test]
fn mask_length_matches_request() {
    assert_eq!(pulse_mask(0, 2, 3).unwrap().len(), 0);
    assert_eq!(pulse_mask(1, 0, 5).unwrap(), vec![false]);
    assert_eq!(pulse_mask(2048, 500, 1000).unwrap().len(), 2048);
}

#[test]
fn zero_period_is_rejected() {
    assert_eq!(pulse_mask(16, 4, 0), Err(SynthError::InvalidParameter));
}

#[test]
fn envelope_is_amplitude_inside_pulse_and_zero_outside() {
    let mask = pulse_mask(6, 1, 2).unwrap();
    let env = apply_envelope(&mask, 1000u32, 0u32);
    assert_eq!(env, vec![1000, 0, 1000, 0, 1000, 0]);
}

#[test]
fn parse_i32_accepts_plain_and_signed_numerals() {
    assert_eq!(parse_i32("42"), Some(42));
    assert_eq!(parse_i32("+5"), Some(5));
    assert_eq!(parse_i32("-7"), Some(-7));
    assert_eq!(parse_i32("-0"), Some(0));
    assert_eq!(parse_i32("007"), Some(7));
    assert_eq!(parse_i32("2147483647"), Some(i32::MAX));
    assert_eq!(parse_i32("-2147483648"), Some(i32::MIN));
}

#[test]
fn parse_i32_rejects_malformed_and_out_of_range_input() {
    assert_eq!(parse_i32(""), None);
    assert_eq!(parse_i32("+"), None);
    assert_eq!(parse_i32("-"), None);
    assert_eq!(parse_i32(" 1"), None);
    assert_eq!(parse_i32("1 "), None);
    assert_eq!(parse_i32("bogus"), None);
    assert_eq!(parse_i32("12x"), None);
    assert_eq!(parse_i32("--4"), None);
    assert_eq!(parse_i32("2147483648"), None);
    assert_eq!(parse_i32("-2147483649"), None);
    assert_eq!(parse_i32("99999999999999999999999999"), None);
}

#[test]
fn parse_usize_accepts_unsigned_numerals_only() {
    assert_eq!(parse_usize("0"), Some(0));
    assert_eq!(parse_usize("+31"), Some(31));
    assert_eq!(parse_usize("1024"), Some(1024));
    assert_eq!(parse_usize("-1"), None);
    assert_eq!(parse_usize(""), None);
    assert_eq!(parse_usize("+"), None);
    assert_eq!(parse_usize("3.5"), None);
    assert_eq!(parse_usize("99999999999999999999999999"), None);
}

#[test]
fn formatting_matches_std_display() {
    assert_eq!(fmt_i32(0), "0");
    assert_eq!(fmt_i32(42), "42");
    assert_eq!(fmt_i32(-7), "-7");
    assert_eq!(fmt_i32(i32::MAX), i32::MAX.to_string());
    assert_eq!(fmt_i32(i32::MIN), i32::MIN.to_string());
    assert_eq!(fmt_u32(305419896), "305419896");
}

#[test]
fn format_then_parse_round_trips() {
    for v in [0, 1, -1, 42, -2048, i32::MAX, i32::MIN] {
        assert_eq!(parse_i32(fmt_i32(v).as_str()), Some(v));
    }
}

#[test]
fn trim_strips_whitespace_at_both_ends() {
    assert_eq!(trim("  7 \t"), "7");
    assert_eq!(trim("nothing"), "nothing");
    assert_eq!(trim(" \n\r "), "");
    assert_eq!(trim(""), "");
}

#[test]
fn str_eq_compares_by_characters() {
    assert!(str_eq("threshold", "threshold"));
    assert!(!str_eq("threshold", "Threshold"));
    assert!(!str_eq("a", "ab"));
}

#[test]
fn bin_list_drops_unparsable_entries_and_keeps_order() {
    assert_eq!(parse_bins("1, 2, bogus, 4"), vec![1, 2, 4]);
}

#[test]
fn bin_list_edge_cases() {
    assert_eq!(parse_bins(""), Vec::<usize>::new());
    assert_eq!(parse_bins(","), Vec::<usize>::new());
    assert_eq!(parse_bins(" 10 ,20,,x,5"), vec![10, 20, 5]);
    assert_eq!(parse_bins("3,7"), vec![3, 7]);
    assert_eq!(parse_bins("-1,2"), vec![2]);
}

#[test]
fn empty_store_yields_defaults() {
    let store = SettingsStore::new();
    let meta = load_frame_meta(&store);
    assert_eq!(meta.threshold, 0);
    assert_eq!(meta.highlight_range, None);
    assert_eq!(meta.analysis_bins, Vec::<usize>::new());
}

#[test]
fn unrelated_sections_yield_defaults() {
    let store = store_from(&[("Other", "threshold", "9"), ("Execution", "level", "4")]);
    let meta = load_frame_meta(&store);
    assert_eq!(meta.threshold, 0);
    assert_eq!(meta.highlight_range, None);
    assert_eq!(meta.analysis_bins, Vec::<usize>::new());
}

#[test]
fn unparsable_threshold_defaults_to_zero() {
    let store = store_from(&[("Execution", "threshold", "high")]);
    assert_eq!(load_frame_meta(&store).threshold, 0);
}

#[test]
fn partial_highlight_is_absent() {
    let only_start = store_from(&[("Analysis", "highlight_start", "10")]);
    assert_eq!(load_frame_meta(&only_start).highlight_range, None);

    let only_end = store_from(&[("Analysis", "highlight_end", "20")]);
    assert_eq!(load_frame_meta(&only_end).highlight_range, None);

    let bad_start = store_from(&[
        ("Analysis", "highlight_start", "oops"),
        ("Analysis", "highlight_end", "20"),
    ]);
    assert_eq!(load_frame_meta(&bad_start).highlight_range, None);

    let bad_end = store_from(&[
        ("Analysis", "highlight_start", "10"),
        ("Analysis", "highlight_end", "oops"),
    ]);
    assert_eq!(load_frame_meta(&bad_end).highlight_range, None);
}

#[test]
fn complete_highlight_is_present() {
    let store = store_from(&[
        ("Analysis", "highlight_start", "10"),
        ("Analysis", "highlight_end", "20"),
    ]);
    assert_eq!(
        load_frame_meta(&store).highlight_range,
        Some(HighlightRange { start: 10, end: 20 })
    );
}

#[test]
fn first_matching_entry_wins() {
    let store = store_from(&[
        ("Execution", "threshold", "1"),
        ("Execution", "threshold", "2"),
    ]);
    assert_eq!(load_frame_meta(&store).threshold, 1);
}

#[test]
fn frame_assembly_with_empty_buffers() {
    let store = store_from(&[
        ("Execution", "threshold", "5"),
        ("Analysis", "highlight_start", "10"),
        ("Analysis", "highlight_end", "20"),
        ("Analysis", "bins", "3,7"),
    ]);
    let meta = load_frame_meta(&store);
    let frame = assemble_frame::<f32>(0, Vec::new(), Vec::new(), meta);
    assert!(frame.samples.is_empty());
    assert!(frame.spectrum.is_empty());
    assert_eq!(frame.threshold, 5);
    assert_eq!(
        frame.highlight_range,
        Some(HighlightRange { start: 10, end: 20 })
    );
    assert_eq!(frame.analysis_bins, vec![3, 7]);
}

#[test]
fn end_to_end_record_with_empty_buffers() {
    let store = store_from(&[
        ("Execution", "threshold", "5"),
        ("Analysis", "highlight_start", "10"),
        ("Analysis", "highlight_end", "20"),
        ("Analysis", "bins", "3,7"),
    ]);
    let frame = produce_frame_record::<f32>(0, Vec::new(), Vec::new(), &store);
    assert!(frame.samples.is_empty());
    assert!(frame.spectrum.is_empty());
    assert_eq!(frame.threshold, 5);
    assert_eq!(
        frame.highlight_range,
        Some(HighlightRange { start: 10, end: 20 })
    );
    assert_eq!(frame.analysis_bins, vec![3, 7]);
}

#[test]
fn updated_threshold_is_read_back() {
    let mut store = store_from(&[("Execution", "threshold", "0")]);
    update_threshold(&mut store, 42);
    assert_eq!(load_frame_meta(&store).threshold, 42);
}

#[test]
fn update_adds_the_key_when_missing_and_keeps_the_rest() {
    let mut store = store_from(&[
        ("Analysis", "highlight_start", "10"),
        ("Analysis", "highlight_end", "20"),
        ("Analysis", "bins", "3,7"),
    ]);
    update_threshold(&mut store, -6);
    let meta = load_frame_meta(&store);
    assert_eq!(meta.threshold, -6);
    assert_eq!(
        meta.highlight_range,
        Some(HighlightRange { start: 10, end: 20 })
    );
    assert_eq!(meta.analysis_bins, vec![3, 7]);
}

#[test]
fn update_overwrites_only_the_first_match() {
    let mut store = store_from(&[
        ("Execution", "threshold", "1"),
        ("Execution", "threshold", "2"),
    ]);
    update_threshold(&mut store, 9);
    assert_eq!(load_frame_meta(&store).threshold, 9);
    let second = &store.entries[1];
    assert!(str_eq(second.value.as_str(), "2"));
}
