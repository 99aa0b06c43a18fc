//! The boundary calls: structured success/error responses over the engine.
//!
//! Every entry point returns a success flag plus an optional error string;
//! an invalid buffer or configuration is reported, never silently dropped.

use vstd::prelude::*;

use crate::engine::{names_known, Binwalk};
use crate::matcher::{names_view, result_views, spec_scan, ScanConfigV};
use crate::order::lex_lt;
use crate::table::{default_signatures, lemma_default_table_wf, lemma_table_distinct,
    spec_default_table, table_names};
use crate::types::{EngineError, ExtractionResult, SignatureInfo, SignatureResult};

verus! {

/// What a boundary scan call reports.
pub struct ScanResponse {
    pub success: bool,
    pub error: Option<String>,
    pub file_map: Vec<SignatureResult>,
}

/// What the version call reports.
pub struct VersionInfo {
    pub success: bool,
    pub version: String,
    pub binwalk_version: String,
}

/// What the signature listing call reports.
pub struct SignatureListResponse {
    pub success: bool,
    pub error: Option<String>,
    pub count: usize,
    pub signatures: Vec<SignatureInfo>,
}

/// The configuration a plain scan runs under: no filters, best match per
/// offset.
pub open spec fn default_scan_cfg() -> ScanConfigV {
    ScanConfigV { only: None, exclude: None, search_all: false }
}

/// Scans a buffer under the default configuration.
///
/// An empty buffer yields a failure with a non-empty error and an empty
/// `file_map`; any other buffer yields exactly [`spec_scan`] of the buffer.
pub fn scan(data: &[u8]) -> (r: ScanResponse)
    ensures
        r.success <==> data@.len() > 0,
        data@.len() > 0 ==> r.error is None && result_views(r.file_map@) == spec_scan(
            default_scan_cfg(),
            spec_default_table(),
            data@,
        ),
        data@.len() == 0 ==> (r.error matches Some(m) && m@.len() > 0) && r.file_map@.len() == 0,
{
    let bw = Binwalk::new();
    proof {
        assert(bw.scan_cfg() =~= default_scan_cfg());
    }
    match bw.scan_bytes(data) {
        Ok(v) => ScanResponse { success: true, error: None, file_map: v },
        Err(e) => ScanResponse { success: false, error: Some(e.message()), file_map: Vec::new() },
    }
}

/// Scans a buffer under name filters and a match policy.
///
/// Fails on an empty buffer, and on a filter that names no known signature;
/// otherwise yields exactly [`spec_scan`] under the requested configuration,
/// so a result's name is always on the only-list (when given) and never on
/// the exclude list.
pub fn scan_with_options(
    data: &[u8],
    only: Option<Vec<String>>,
    exclude: Option<Vec<String>>,
    search_all: bool,
) -> (r: ScanResponse)
    ensures
        r.success <==> data@.len() > 0 && names_known(names_view(only), spec_default_table())
            && names_known(names_view(exclude), spec_default_table()),
        r.success ==> r.error is None && result_views(r.file_map@) == spec_scan(
            ScanConfigV {
                only: names_view(only),
                exclude: names_view(exclude),
                search_all: search_all,
            },
            spec_default_table(),
            data@,
        ),
        !r.success ==> (r.error matches Some(m) && m@.len() > 0) && r.file_map@.len() == 0,
{
    match Binwalk::configure(None, None, only, exclude, search_all) {
        Ok(bw) => match bw.scan_bytes(data) {
            Ok(v) => {
                proof {
                    assert(bw.scan_cfg() =~= ScanConfigV {
                        only: names_view(only),
                        exclude: names_view(exclude),
                        search_all: search_all,
                    });
                }
                ScanResponse { success: true, error: None, file_map: v }
            },
            Err(e) => ScanResponse {
                success: false,
                error: Some(e.message()),
                file_map: Vec::new(),
            },
        },
        Err(e) => ScanResponse { success: false, error: Some(e.message()), file_map: Vec::new() },
    }
}

/// Reports the library's version and the version of the signature engine
/// whose boundary it matches.
pub fn version() -> (r: VersionInfo)
    ensures
        r.success,
        r.version@ == "0.1.0"@,
        r.binwalk_version@ == "3.1.0"@,
{
    VersionInfo {
        success: true,
        version: String::from_str("0.1.0"),
        binwalk_version: String::from_str("3.1.0"),
    }
}

/// Lists every signature of the table, sorted ascending by name, each with
/// its short-signature classification. The count equals the number of
/// entries, and the names are pairwise distinct.
pub fn list_signatures() -> (r: SignatureListResponse)
    ensures
        r.success,
        r.error is None,
        r.count == r.signatures@.len(),
        r.signatures@.len() == spec_default_table().len(),
        forall|i: int|
            0 <= i < r.signatures@.len() ==> (#[trigger] r.signatures@[i]).name@
                == spec_default_table()[i].name && r.signatures@[i].short
                == spec_default_table()[i].short,
        forall|i: int, j: int|
            0 <= i < j < r.signatures@.len() ==> lex_lt(
                (#[trigger] r.signatures@[i]).name@,
                (#[trigger] r.signatures@[j]).name@,
            ),
        forall|i: int, j: int|
            0 <= i < r.signatures@.len() && 0 <= j < r.signatures@.len() && i != j
                ==> (#[trigger] r.signatures@[i]).name@ != (#[trigger] r.signatures@[j]).name@,
{
    let sigs = default_signatures();
    let mut out: Vec<SignatureInfo> = Vec::new();
    let mut i: usize = 0;
    while i < sigs.len()
        invariant
            0 <= i <= sigs@.len(),
            sigs@.map_values(|s: crate::types::Signature| s@) == spec_default_table(),
            out@.len() == i,
            forall|k: int|
                0 <= k < i ==> (#[trigger] out@[k]).name@ == spec_default_table()[k].name
                    && out@[k].short == spec_default_table()[k].short,
        decreases sigs@.len() - i,
    {
        proof {
            assert(sigs@.map_values(|s: crate::types::Signature| s@)[i as int]
                == spec_default_table()[i as int]);
        }
        out.push(SignatureInfo { name: sigs[i].name.clone(), short: sigs[i].short });
        i += 1;
    }
    proof {
        lemma_default_table_wf();
        lemma_table_distinct(spec_default_table());
        let t = spec_default_table();
        assert forall|a: int, b: int| 0 <= a < b < out@.len() implies lex_lt(
            (#[trigger] out@[a]).name@,
            (#[trigger] out@[b]).name@,
        ) by {
            assert(table_names(t)[a] == t[a].name);
            assert(table_names(t)[b] == t[b].name);
        }
    }
    let count = out.len();
    SignatureListResponse { success: true, error: None, count, signatures: out }
}

/// Looks an extraction record up by its key: the record of the first entry
/// carrying `key`, or `None` when no entry does.
pub fn get_extraction<'a>(map: &'a Vec<(String, ExtractionResult)>, key: &String) -> (r: Option<
    &'a ExtractionResult,
>)
    ensures
        (r matches Some(er) ==> exists|i: int|
            0 <= i < map@.len() && (#[trigger] map@[i]).0@ == key@ && map@[i].1 == *er),
        (r is None <==> forall|i: int| 0 <= i < map@.len() ==> (#[trigger] map@[i]).0@ != key@),
{
    let mut i: usize = 0;
    while i < map.len()
        invariant
            0 <= i <= map@.len(),
            forall|k: int| 0 <= k < i ==> (#[trigger] map@[k]).0@ != key@,
        decreases map@.len() - i,
    {
        if map[i].0.eq(key) {
            return Some(&map[i].1);
        }
        i += 1;
    }
    None
}

} // verus!
