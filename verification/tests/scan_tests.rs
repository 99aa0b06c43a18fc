use sigscan::api::{list_signatures, scan, scan_with_options, version};
use sigscan::engine::Binwalk;
use sigscan::types::EngineError;

fn gzip_data() -> Vec<u8> {
    vec![0x1f, 0x8b, 0x08, 0x00, 0x00]
}

#[test]
fn scan_empty_buffer_fails() {
    let r = scan(&[]);
    assert!(!r.success);
    assert!(!r.error.unwrap().is_empty());
    assert!(r.file_map.is_empty());
}

#[test]
fn scan_gzip_best_match() {
    let data = gzip_data();
    let r = scan(&data);
    assert!(r.success);
    assert!(r.error.is_none());
    assert_eq!(r.file_map.len(), 1);
    let m = &r.file_map[0];
    assert_eq!(m.offset, 0);
    assert_eq!(m.name, "gzip");
    assert_eq!(m.id, "gz1");
    assert_eq!(m.size, 5);
    assert_eq!(m.confidence, 200);
    assert!(!m.extraction_declined);
    assert!(m.preferred_extractor.is_some());
}

#[test]
fn scan_search_all_keeps_overlapping_matches() {
    let data = gzip_data();
    let r = scan_with_options(&data, None, None, true);
    assert!(r.success);
    assert_eq!(r.file_map.len(), 2);
    // table order at the same offset: deflate comes before gzip
    assert_eq!(r.file_map[0].name, "deflate");
    assert_eq!(r.file_map[0].offset, 0);
    assert_eq!(r.file_map[0].confidence, 90);
    assert_eq!(r.file_map[1].name, "gzip");
    assert_eq!(r.file_map[1].offset, 0);
}

#[test]
fn scan_results_sorted_by_offset() {
    // a RIFF container whose length field ends at offset 12, then gzip
    let data = vec![
        0x52, 0x49, 0x46, 0x46, 0x04, 0x00, 0x00, 0x00, 0xaa, 0xbb, 0xcc, 0xdd, 0x1f, 0x8b, 0x08,
    ];
    let r = scan(&data);
    assert!(r.success);
    assert_eq!(r.file_map.len(), 2);
    assert_eq!(r.file_map[0].name, "riff");
    assert_eq!(r.file_map[0].offset, 0);
    assert_eq!(r.file_map[0].size, 12);
    assert_eq!(r.file_map[1].name, "gzip");
    assert_eq!(r.file_map[1].offset, 12);
    assert_eq!(r.file_map[1].size, 3);
    for w in r.file_map.windows(2) {
        assert!(w[0].offset <= w[1].offset);
    }
}

#[test]
fn overlapping_match_is_suppressed() {
    // the pdf match at offset 0 spans the whole buffer, so the gzip magic
    // inside its byte range is suppressed outside search_all mode
    let data = vec![0x25, 0x50, 0x44, 0x46, 0x1f, 0x8b, 0x08];
    let r = scan(&data);
    assert!(r.success);
    assert_eq!(r.file_map.len(), 1);
    assert_eq!(r.file_map[0].name, "pdf");
    assert_eq!(r.file_map[0].size, 7);
    // search_all lifts the suppression: pdf at 0, deflate and gzip at 4
    let all = scan_with_options(&data, None, None, true);
    assert_eq!(all.file_map.len(), 3);
}

#[test]
fn always_display_bypasses_suppression() {
    // the elf magic sits inside the pdf match's range, but elf is flagged
    // always_display and is reported anyway
    let data = vec![0x25, 0x50, 0x44, 0x46, 0x7f, 0x45, 0x4c, 0x46];
    let r = scan(&data);
    assert!(r.success);
    assert_eq!(r.file_map.len(), 2);
    assert_eq!(r.file_map[0].name, "pdf");
    assert!(!r.file_map[0].always_display);
    assert_eq!(r.file_map[1].name, "elf");
    assert_eq!(r.file_map[1].offset, 4);
    assert!(r.file_map[1].always_display);
}

#[test]
fn scan_mid_buffer_offset() {
    let data = vec![0x00, 0x00, 0x00, 0x1f, 0x8b, 0x08];
    let r = scan(&data);
    assert!(r.success);
    assert_eq!(r.file_map.len(), 1);
    assert_eq!(r.file_map[0].offset, 3);
    assert_eq!(r.file_map[0].size, 3);
}

#[test]
fn scan_twice_is_identical() {
    let data = vec![0x25, 0x50, 0x44, 0x46, 0x1f, 0x8b, 0x08];
    let a = scan(&data);
    let b = scan(&data);
    assert_eq!(a.success, b.success);
    assert_eq!(a.file_map.len(), b.file_map.len());
    for (x, y) in a.file_map.iter().zip(b.file_map.iter()) {
        assert_eq!(x.offset, y.offset);
        assert_eq!(x.id, y.id);
        assert_eq!(x.size, y.size);
        assert_eq!(x.name, y.name);
        assert_eq!(x.confidence, y.confidence);
        assert_eq!(x.description, y.description);
        assert_eq!(x.always_display, y.always_display);
        assert_eq!(x.extraction_declined, y.extraction_declined);
    }
}

#[test]
fn only_filter_restricts_names() {
    let data = vec![0x25, 0x50, 0x44, 0x46, 0x1f, 0x8b, 0x08];
    let r = scan_with_options(&data, Some(vec!["pdf".to_string()]), None, false);
    assert!(r.success);
    assert_eq!(r.file_map.len(), 1);
    assert!(r.file_map.iter().all(|m| m.name == "pdf"));
}

#[test]
fn only_filter_absent_name_yields_empty() {
    let data = gzip_data();
    let r = scan_with_options(&data, Some(vec!["zip".to_string()]), None, false);
    assert!(r.success);
    assert!(r.file_map.is_empty());
}

#[test]
fn exclude_filter_removes_name() {
    let data = vec![0x25, 0x50, 0x44, 0x46, 0x1f, 0x8b, 0x08];
    let r = scan_with_options(&data, None, Some(vec!["pdf".to_string()]), false);
    assert!(r.success);
    assert!(r.file_map.iter().all(|m| m.name != "pdf"));
    assert_eq!(r.file_map.len(), 1);
    assert_eq!(r.file_map[0].name, "gzip");
}

#[test]
fn exclude_best_match_promotes_runner_up() {
    let data = gzip_data();
    let r = scan_with_options(&data, None, Some(vec!["gzip".to_string()]), false);
    assert!(r.success);
    assert_eq!(r.file_map.len(), 1);
    assert_eq!(r.file_map[0].name, "deflate");
}

#[test]
fn unknown_filter_name_is_rejected() {
    let data = gzip_data();
    let r = scan_with_options(&data, Some(vec!["no-such-signature".to_string()]), None, false);
    assert!(!r.success);
    assert!(!r.error.unwrap().is_empty());
    assert!(r.file_map.is_empty());
}

#[test]
fn riff_length_field_is_used() {
    // "RIFF" + little-endian payload length 4 + 4 payload bytes
    let data = vec![0x52, 0x49, 0x46, 0x46, 0x04, 0x00, 0x00, 0x00, 0xaa, 0xbb, 0xcc, 0xdd];
    let r = scan(&data);
    assert!(r.success);
    assert_eq!(r.file_map.len(), 1);
    assert_eq!(r.file_map[0].name, "riff");
    assert_eq!(r.file_map[0].size, 12);
}

#[test]
fn riff_length_field_is_clamped() {
    // length field far beyond the buffer: size falls back to what remains
    let data = vec![0x52, 0x49, 0x46, 0x46, 0xff, 0xff, 0xff, 0x7f];
    let r = scan(&data);
    assert!(r.success);
    assert_eq!(r.file_map.len(), 1);
    assert_eq!(r.file_map[0].size, 8);
    assert!(r.file_map[0].offset + r.file_map[0].size <= data.len());
}

#[test]
fn every_size_stays_inside_buffer() {
    let mut data = Vec::new();
    data.extend_from_slice(&[0x42, 0x5a, 0x68]);
    data.extend_from_slice(&[0x7f, 0x45, 0x4c, 0x46]);
    data.extend_from_slice(&[0x50, 0x4b, 0x03, 0x04]);
    let r = scan_with_options(&data, None, None, true);
    assert!(r.success);
    assert!(!r.file_map.is_empty());
    for m in &r.file_map {
        assert!(m.offset + m.size <= data.len());
    }
}

#[test]
fn list_signatures_counts_distinct_names() {
    let r = list_signatures();
    assert!(r.success);
    assert!(r.error.is_none());
    assert_eq!(r.count, 7);
    assert_eq!(r.signatures.len(), 7);
    let names: Vec<&str> = r.signatures.iter().map(|s| s.name.as_str()).collect();
    assert_eq!(names, vec!["bzip2", "deflate", "elf", "gzip", "pdf", "riff", "zip"]);
    let mut sorted = names.clone();
    sorted.sort();
    sorted.dedup();
    assert_eq!(sorted.len(), r.count);
    for s in &r.signatures {
        let expect_short = s.name == "bzip2" || s.name == "deflate";
        assert_eq!(s.short, expect_short);
    }
}

#[test]
fn version_reports_engine_versions() {
    let v = version();
    assert!(v.success);
    assert_eq!(v.version, "0.1.0");
    assert_eq!(v.binwalk_version, "3.1.0");
}

#[test]
fn configure_rejects_unknown_exclude() {
    let res = Binwalk::configure(None, None, None, Some(vec!["bogus".to_string()]), false);
    assert!(matches!(res, Err(EngineError::ConfigurationError)));
}

#[test]
fn extractor_lookup_by_name() {
    let bw = Binwalk::new();
    let gz = bw.extractor_for(&"gzip".to_string()).unwrap();
    assert_eq!(gz.utility.kind(), "internal");
    assert_eq!(gz.utility.value(), Some("carve".to_string()));
    assert!(!gz.do_not_recurse);
    let zip = bw.extractor_for(&"zip".to_string()).unwrap();
    assert_eq!(zip.utility.kind(), "external");
    assert!(bw.extractor_for(&"bzip2".to_string()).is_none());
    assert!(bw.extractor_for(&"unknown".to_string()).is_none());
}

#[test]
fn configure_keeps_directories() {
    let bw = Binwalk::configure(
        Some("firmware.bin".to_string()),
        Some("out".to_string()),
        None,
        None,
        false,
    )
    .unwrap();
    assert_eq!(bw.base_target_file().as_str(), "firmware.bin");
    assert_eq!(bw.base_output_directory().as_str(), "out");
    assert_eq!(bw.signature_count(), 7);
}
