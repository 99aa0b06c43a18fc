use sigscan::api::get_extraction;
use sigscan::engine::Binwalk;
use sigscan::types::{EngineError, Extractor, ExtractorType, SignatureResult};

fn match_with_extractor(offset: usize, size: usize, id: &str, utility: ExtractorType)
    -> SignatureResult {
    SignatureResult {
        offset,
        id: id.to_string(),
        size,
        name: "synthetic".to_string(),
        confidence: 128,
        description: "synthetic match".to_string(),
        always_display: false,
        extraction_declined: false,
        preferred_extractor: Some(Extractor {
            utility,
            extension: "bin".to_string(),
            arguments: vec![],
            exit_codes: vec![],
            do_not_recurse: false,
        }),
    }
}

#[test]
fn extraction_failure_is_isolated() {
    let bw = Binwalk::new();
    let data = vec![1u8, 2, 3, 4, 5, 6];
    let good = match_with_extractor(0, 6, "ok1", ExtractorType::Internal("carve".to_string()));
    let bad = match_with_extractor(1, 5, "bad1", ExtractorType::Internal("bogus".to_string()));
    let file_map = vec![bad, good];
    let out = bw.extract_bytes(&data, &file_map);
    assert_eq!(out.len(), 2);
    let failed = get_extraction(&out, &"1-bad1".to_string()).unwrap();
    assert!(!failed.success);
    assert_eq!(failed.size, None);
    assert_eq!(failed.extractor, "bogus");
    let succeeded = get_extraction(&out, &"0-ok1".to_string()).unwrap();
    assert!(succeeded.success);
    assert_eq!(succeeded.size, Some(6));
    assert_eq!(succeeded.extractor, "carve");
}

#[test]
fn extraction_record_names_output_directory() {
    let bw = Binwalk::new();
    let data = vec![9u8, 9, 9];
    let m = match_with_extractor(2, 1, "c1", ExtractorType::Internal("carve".to_string()));
    let out = bw.extract_bytes(&data, &vec![m]);
    assert_eq!(out.len(), 1);
    assert_eq!(out[0].0, "2-c1");
    assert_eq!(out[0].1.output_directory, "extractions/2-c1");
}

#[test]
fn extraction_range_is_clamped() {
    let bw = Binwalk::new();
    let data = vec![1u8, 2, 3, 4, 5, 6];
    let m = match_with_extractor(2, 100, "c2", ExtractorType::Internal("carve".to_string()));
    let out = bw.extract_bytes(&data, &vec![m]);
    assert!(out[0].1.success);
    assert_eq!(out[0].1.size, Some(4));
}

#[test]
fn declined_match_is_still_recorded() {
    let bw = Binwalk::new();
    let data = vec![1u8, 2, 3];
    let m = SignatureResult {
        offset: 0,
        id: "d1".to_string(),
        size: 3,
        name: "synthetic".to_string(),
        confidence: 10,
        description: "no extractor".to_string(),
        always_display: false,
        extraction_declined: true,
        preferred_extractor: None,
    };
    let out = bw.extract_bytes(&data, &vec![m]);
    assert_eq!(out.len(), 1);
    assert!(!out[0].1.success);
    assert_eq!(out[0].1.extractor, "none");
}

#[test]
fn external_command_is_recorded_not_launched() {
    let bw = Binwalk::new();
    // a ZIP local-file header: its table extractor is the external unzip
    let data = vec![0x50u8, 0x4b, 0x03, 0x04, 0x00, 0x00];
    let file_map = bw.scan_bytes(&data).unwrap();
    assert_eq!(file_map.len(), 1);
    assert_eq!(file_map[0].name, "zip");
    let ex = file_map[0].preferred_extractor.as_ref().unwrap();
    assert_eq!(ex.exit_codes, vec![0, 1]);
    assert_eq!(ex.utility.kind(), "external");
    assert_eq!(ex.utility.value(), Some("unzip".to_string()));
    let out = bw.extract_bytes(&data, &file_map);
    assert_eq!(out.len(), 1);
    assert!(!out[0].1.success);
    assert_eq!(out[0].1.extractor, "unzip");
}

#[test]
fn extractor_type_kinds() {
    assert_eq!(ExtractorType::Internal("carve".to_string()).kind(), "internal");
    assert_eq!(ExtractorType::External("unzip".to_string()).kind(), "external");
    assert_eq!(ExtractorType::NoExtractor.kind(), "none");
    assert_eq!(ExtractorType::NoExtractor.value(), None);
    assert_eq!(
        ExtractorType::Internal("carve".to_string()).value(),
        Some("carve".to_string())
    );
}

#[test]
fn analyze_empty_buffer_is_invalid() {
    let bw = Binwalk::new();
    let res = bw.analyze_bytes(&[], &"input.bin".to_string(), true);
    assert!(matches!(res, Err(EngineError::InvalidInput)));
}

#[test]
fn analyze_without_extraction_scans_once() {
    let bw = Binwalk::new();
    let data = vec![0x1f, 0x8b, 0x08, 0x00];
    let res = bw.analyze_bytes(&data, &"input.bin".to_string(), false).unwrap();
    assert_eq!(res.len(), 1);
    assert_eq!(res[0].file_path, "input.bin");
    assert_eq!(res[0].file_map.len(), 1);
    assert_eq!(res[0].file_map[0].name, "gzip");
    assert!(res[0].extractions.is_empty());
}

#[test]
fn recursion_guard_trips_on_self_reproducing_output() {
    // gzip's carve extractor reproduces the whole buffer byte for byte, so
    // recursion can never bottom out: the depth guard must report it
    let bw = Binwalk::new();
    let data = vec![0x1f, 0x8b, 0x08, 0x00];
    let res = bw.analyze_bytes(&data, &"input.bin".to_string(), true);
    assert!(matches!(res, Err(EngineError::RecursionLimitExceeded)));
}

#[test]
fn do_not_recurse_stops_recursion() {
    // pdf's carve extractor also reproduces the buffer, but is flagged
    // do_not_recurse, so one extraction happens and recursion stops
    let bw = Binwalk::new();
    let data = vec![0x25, 0x50, 0x44, 0x46, 0x00];
    let res = bw.analyze_bytes(&data, &"doc.pdf".to_string(), true).unwrap();
    assert_eq!(res.len(), 1);
    assert_eq!(res[0].extractions.len(), 1);
    assert!(res[0].extractions[0].1.success);
    assert!(res[0].extractions[0].1.do_not_recurse);
}

#[test]
fn analyze_recurses_into_shrinking_output() {
    // riff's strip extractor drops the four magic bytes, so its output is a
    // strictly smaller buffer holding no further matches
    let data = vec![0x52, 0x49, 0x46, 0x46, 0x01, 0x00, 0x00, 0x00, 0x77];
    let bw = Binwalk::new();
    let res = bw.analyze_bytes(&data, &"a.riff".to_string(), true).unwrap();
    assert_eq!(res.len(), 2);
    assert_eq!(res[0].file_path, "a.riff");
    assert_eq!(res[0].file_map[0].name, "riff");
    assert_eq!(res[1].file_path, "a.riff/0-rf1");
    assert!(res[1].file_map.is_empty());
}

#[test]
fn analyze_follows_nested_containers() {
    // two overlapping RIFF headers: stripping the outer magic exposes the
    // inner container, which strips down to an unmatched payload
    let data = vec![
        0x52, 0x49, 0x46, 0x46, // outer magic
        0x52, 0x49, 0x46, 0x46, // inner magic, read as the outer length field
        0x01, 0x00, 0x00, 0x00, // inner length field
        0x5a,
    ];
    let bw = Binwalk::new();
    let res = bw.analyze_bytes(&data, &"nested".to_string(), true).unwrap();
    // the outer match spans the whole buffer, so the inner magic at offset 4
    // is suppressed; stripping the outer magic exposes the inner container,
    // which strips down to an unmatched leaf
    assert_eq!(res[0].file_map.len(), 1);
    assert_eq!(res[0].file_map[0].offset, 0);
    assert_eq!(res.len(), 3);
    assert_eq!(res[1].file_path, "nested/0-rf1");
    assert_eq!(res[1].file_map.len(), 1);
    assert_eq!(res[2].file_path, "nested/0-rf1/0-rf1");
    assert!(res[2].file_map.is_empty());
}

#[test]
fn keys_render_multi_digit_offsets() {
    let bw = Binwalk::new();
    let mut data = vec![0u8; 12];
    data.extend_from_slice(&[7, 8, 9]);
    let m = match_with_extractor(12, 3, "x1", ExtractorType::Internal("carve".to_string()));
    let out = bw.extract_bytes(&data, &vec![m]);
    assert_eq!(out[0].0, "12-x1");
    assert_eq!(out[0].1.output_directory, "extractions/12-x1");
    assert_eq!(out[0].1.size, Some(3));
}

#[test]
fn bzip2_short_signature_declines_extraction() {
    let bw = Binwalk::new();
    let data = vec![0x42, 0x5a, 0x68, 0x39];
    let file_map = bw.scan_bytes(&data).unwrap();
    assert_eq!(file_map.len(), 1);
    assert_eq!(file_map[0].name, "bzip2");
    assert!(file_map[0].extraction_declined);
    let out = bw.extract_bytes(&data, &file_map);
    assert_eq!(out.len(), 1);
    assert!(!out[0].1.success);
}

#[test]
fn elf_extractor_slot_without_routine_declines() {
    // the table's elf entry carries an extractor slot with no routine
    // behind it; the result is declined and carries no preferred extractor
    let bw = Binwalk::new();
    let data = vec![0x7f, 0x45, 0x4c, 0x46, 0x02];
    let file_map = bw.scan_bytes(&data).unwrap();
    assert_eq!(file_map.len(), 1);
    assert_eq!(file_map[0].name, "elf");
    assert!(file_map[0].always_display);
    assert!(file_map[0].extraction_declined);
    assert!(file_map[0].preferred_extractor.is_none());
}

#[test]
fn declined_iff_no_preferred_extractor() {
    let bw = Binwalk::new();
    let mut data = Vec::new();
    data.extend_from_slice(&[0x42, 0x5a, 0x68]);
    data.extend_from_slice(&[0x7f, 0x45, 0x4c, 0x46]);
    data.extend_from_slice(&[0x1f, 0x8b, 0x08]);
    let r = sigscan::api::scan_with_options(&data, None, None, true);
    assert!(r.success);
    assert!(!r.file_map.is_empty());
    for m in &r.file_map {
        assert_eq!(m.extraction_declined, m.preferred_extractor.is_none());
    }
}

#[test]
fn external_job_carves_range_and_names_command() {
    let bw = Binwalk::new();
    let data = vec![0x50u8, 0x4b, 0x03, 0x04, 0x11, 0x22];
    let file_map = bw.scan_bytes(&data).unwrap();
    assert_eq!(file_map.len(), 1);
    let (region, extractor) = sigscan::extract::external_job(&data, &file_map[0]).unwrap();
    assert_eq!(region, data);
    assert_eq!(extractor.utility.kind(), "external");
    assert_eq!(extractor.utility.value(), Some("unzip".to_string()));
    assert_eq!(extractor.exit_codes, vec![0, 1]);
    // a match with a built-in routine asks for no external work
    let gz = vec![0x1f, 0x8b, 0x08];
    let gz_map = bw.scan_bytes(&gz).unwrap();
    assert!(sigscan::extract::external_job(&gz, &gz_map[0]).is_none());
}

#[test]
fn external_record_judges_exit_code() {
    let bw = Binwalk::new();
    let data = vec![0x50u8, 0x4b, 0x03, 0x04, 0x11, 0x22];
    let file_map = bw.scan_bytes(&data).unwrap();
    let base = bw.base_output_directory();
    let ok0 = sigscan::extract::record_external_result(base, &file_map[0], 0);
    assert!(ok0.success);
    assert_eq!(ok0.extractor, "unzip");
    assert_eq!(ok0.output_directory, "extractions/0-zp1");
    let ok1 = sigscan::extract::record_external_result(base, &file_map[0], 1);
    assert!(ok1.success);
    let bad = sigscan::extract::record_external_result(base, &file_map[0], 2);
    assert!(!bad.success);
    assert_eq!(bad.size, None);
}

#[test]
fn exit_codes_decide_external_success() {
    let ex = Extractor {
        utility: ExtractorType::External("unzip".to_string()),
        extension: "zip".to_string(),
        arguments: vec!["-o".to_string()],
        exit_codes: vec![0, 1],
        do_not_recurse: false,
    };
    assert!(sigscan::extract::exit_code_accepted(&ex, 0));
    assert!(sigscan::extract::exit_code_accepted(&ex, 1));
    assert!(!sigscan::extract::exit_code_accepted(&ex, 2));
    assert!(!sigscan::extract::exit_code_accepted(&ex, -1));
}

#[test]
fn lookup_of_absent_key_is_none() {
    let bw = Binwalk::new();
    let data = vec![1u8, 2, 3];
    let out = bw.extract_bytes(&data, &vec![]);
    assert!(out.is_empty());
    assert!(get_extraction(&out, &"0-x".to_string()).is_none());
}
