//! The engine: a read-only configuration object over the built-in signature
//! table, reusable across any number of scans, extractions and analyses
//! without mutation.

use vstd::prelude::*;

use crate::extract::{extract_one, extractor_dnr, key_of, spec_extract_one, spec_extract_output};
use crate::matcher::{lemma_scan_wf, name_listed, names_view, no_duplicate_matches, result_views,
    scan_table, sig_views, sorted_by_offset, spec_scan, ScanConfigV};
use crate::table::{default_signatures, lemma_default_table_wf, lemma_table_distinct,
    spec_default_table, table_names};
use crate::types::{AnalysisResults, EngineError, ExtractionResult, Extractor, Signature,
    SignatureResult};

verus! {

/// How deep the recursion driver will follow extracted output.
pub open spec fn spec_recursion_limit() -> int {
    4
}

/// Mathematical view of [`Binwalk`].
#[verifier::ext_equal]
pub struct BinwalkV {
    pub table: Seq<crate::types::SignatureV>,
    pub only: Option<Seq<Seq<char>>>,
    pub exclude: Option<Seq<Seq<char>>>,
    pub search_all: bool,
    pub max_depth: int,
    pub base_target_file: Seq<char>,
    pub base_output_directory: Seq<char>,
}

/// The engine: the signature table plus the scan configuration. Immutable
/// after construction; safe to share across independent scans.
pub struct Binwalk {
    signatures: Vec<Signature>,
    only: Option<Vec<String>>,
    exclude: Option<Vec<String>>,
    search_all: bool,
    max_depth: usize,
    base_target_file: String,
    base_output_directory: String,
}

impl View for Binwalk {
    type V = BinwalkV;

    closed spec fn view(&self) -> BinwalkV {
        BinwalkV {
            table: sig_views(self.signatures@),
            only: names_view(self.only),
            exclude: names_view(self.exclude),
            search_all: self.search_all,
            max_depth: self.max_depth as int,
            base_target_file: self.base_target_file@,
            base_output_directory: self.base_output_directory@,
        }
    }
}

/// Every name of the list is the name of a table entry.
pub open spec fn seq_names_known(l: Seq<Seq<char>>, t: Seq<crate::types::SignatureV>) -> bool {
    forall|i: int| 0 <= i < l.len() ==> name_listed(table_names(t), #[trigger] l[i])
}

/// Every name of the optional filter list is the name of a table entry.
pub open spec fn names_known(ns: Option<Seq<Seq<char>>>, t: Seq<crate::types::SignatureV>) -> bool {
    match ns {
        None => true,
        Some(l) => seq_names_known(l, t),
    }
}

/// `name` is the name of some entry of `table`.
fn sig_name_known(table: &Vec<Signature>, name: &String) -> (r: bool)
    ensures
        r == name_listed(table_names(sig_views(table@)), name@),
{
    let mut j: usize = 0;
    while j < table.len()
        invariant
            0 <= j <= table@.len(),
            forall|k: int| 0 <= k < j ==> table@[k].name@ != name@,
        decreases table@.len() - j,
    {
        if table[j].name.eq(name) {
            proof {
                assert(table_names(sig_views(table@))[j as int] == table@[j as int]@.name);
            }
            return true;
        }
        j += 1;
    }
    proof {
        let ns = table_names(sig_views(table@));
        assert forall|k: int| 0 <= k < ns.len() implies ns[k] != name@ by {
            assert(ns[k] == table@[k]@.name);
        }
    }
    false
}

/// Every name of `names` is the name of some entry of `table`.
fn names_all_known(names: &Vec<String>, table: &Vec<Signature>) -> (r: bool)
    ensures
        r == names_known(Some(names@.map_values(|s: String| s@)), sig_views(table@)),
{
    let mut i: usize = 0;
    while i < names.len()
        invariant
            0 <= i <= names@.len(),
            forall|k: int|
                0 <= k < i ==> name_listed(
                    table_names(sig_views(table@)),
                    #[trigger] names@[k]@,
                ),
        decreases names@.len() - i,
    {
        if !sig_name_known(table, &names[i]) {
            proof {
                let mapped = names@.map_values(|s: String| s@);
                assert(mapped.len() == names@.len());
                assert(mapped[i as int] == names@[i as int]@);
                assert(!name_listed(table_names(sig_views(table@)), mapped[i as int]));
                assert(!seq_names_known(mapped, sig_views(table@)));
            }
            return false;
        }
        i += 1;
    }
    proof {
        let mapped = names@.map_values(|s: String| s@);
        assert forall|k: int|
            0 <= k < mapped.len() implies name_listed(
            table_names(sig_views(table@)),
            #[trigger] mapped[k],
        ) by {
            assert(mapped[k] == names@[k]@);
        }
    }
    true
}

/// Mathematical view of one analysis entry.
#[verifier::ext_equal]
pub struct AnalysisV {
    pub file_path: Seq<char>,
    pub file_map: Seq<crate::types::SignatureResultV>,
    pub extractions: Seq<(Seq<char>, crate::types::ExtractionResultV)>,
}

/// The views of a list of keyed extraction records.
pub open spec fn extraction_entry_views(v: Seq<(String, ExtractionResult)>) -> Seq<
    (Seq<char>, crate::types::ExtractionResultV),
> {
    v.map_values(|p: (String, ExtractionResult)| (p.0@, p.1@))
}

/// The views of a list of pending child buffers.
pub open spec fn pending_views(v: Seq<(String, Vec<u8>)>) -> Seq<(Seq<char>, Seq<u8>)> {
    v.map_values(|p: (String, Vec<u8>)| (p.0@, p.1@))
}

/// The view of one analysis entry.
pub open spec fn analysis_view(a: AnalysisResults) -> AnalysisV {
    AnalysisV {
        file_path: a.file_path@,
        file_map: result_views(a.file_map@),
        extractions: extraction_entry_views(a.extractions@),
    }
}

/// The views of a list of analysis entries.
pub open spec fn analysis_views(v: Seq<AnalysisResults>) -> Seq<AnalysisV> {
    v.map_values(|a: AnalysisResults| analysis_view(a))
}

proof fn lemma_pending_views_push(s: Seq<(String, Vec<u8>)>, x: (String, Vec<u8>))
    ensures
        pending_views(s.push(x)) == pending_views(s).push((x.0@, x.1@)),
{
    assert(pending_views(s.push(x)) =~= pending_views(s).push((x.0@, x.1@)));
}

proof fn lemma_analysis_views_concat(s1: Seq<AnalysisResults>, s2: Seq<AnalysisResults>)
    ensures
        analysis_views(s1 + s2) == analysis_views(s1) + analysis_views(s2),
{
    assert(analysis_views(s1 + s2) =~= analysis_views(s1) + analysis_views(s2));
}

/// The extraction records for the matches `s` of `data`, in match order.
pub open spec fn spec_extractions(data: Seq<u8>, base: Seq<char>, s: Seq<
    crate::types::SignatureResultV,
>) -> Seq<(Seq<char>, crate::types::ExtractionResultV)> {
    s.map_values(
        |r: crate::types::SignatureResultV| (key_of(r), spec_extract_one(data, base, r)),
    )
}

/// The extracted outputs among the first `n` matches that ask for recursion:
/// non-empty bytes from an extractor not flagged `do_not_recurse`, each under
/// its child path `<path>/<key>`.
pub open spec fn spec_pending_upto(
    data: Seq<u8>,
    path: Seq<char>,
    s: Seq<crate::types::SignatureResultV>,
    n: int,
) -> Seq<(Seq<char>, Seq<u8>)>
    decreases n,
{
    if n <= 0 {
        Seq::empty()
    } else {
        spec_pending_upto(data, path, s, n - 1) + (match spec_extract_output(data, s[n - 1]) {
            Some(out) => if out.len() > 0 && !extractor_dnr(s[n - 1].preferred_extractor) {
                seq![(path + "/"@ + key_of(s[n - 1]), out)]
            } else {
                Seq::empty()
            },
            None => Seq::empty(),
        })
    }
}

/// The extracted outputs of the matches `s` that ask for recursion.
pub open spec fn spec_pending(data: Seq<u8>, path: Seq<char>, s: Seq<
    crate::types::SignatureResultV,
>) -> Seq<(Seq<char>, Seq<u8>)> {
    spec_pending_upto(data, path, s, s.len() as int)
}

/// What a recursive analysis of `data` under `path` at `depth` returns: its
/// own entry, followed by the analyses of every recursable extracted output
/// at `depth + 1`, depth-first in match order; `RecursionLimitExceeded` once
/// output asks for recursion at the depth limit.
pub open spec fn spec_analyze(
    cfg: ScanConfigV,
    base: Seq<char>,
    maxd: int,
    data: Seq<u8>,
    path: Seq<char>,
    depth: int,
    do_extraction: bool,
) -> Result<Seq<AnalysisV>, EngineError>
    decreases maxd - depth, 1int, 0int,
{
    let s = spec_scan(cfg, spec_default_table(), data);
    let root = AnalysisV {
        file_path: path,
        file_map: s,
        extractions: if do_extraction {
            spec_extractions(data, base, s)
        } else {
            Seq::empty()
        },
    };
    let p = if do_extraction {
        spec_pending(data, path, s)
    } else {
        Seq::empty()
    };
    match spec_analyze_list(cfg, base, maxd, p, 0, depth, do_extraction) {
        Ok(rest) => Ok(seq![root] + rest),
        Err(e) => Err(e),
    }
}

/// The analyses of the pending outputs `p[i..]`, each one level deeper.
pub open spec fn spec_analyze_list(
    cfg: ScanConfigV,
    base: Seq<char>,
    maxd: int,
    p: Seq<(Seq<char>, Seq<u8>)>,
    i: int,
    depth: int,
    do_extraction: bool,
) -> Result<Seq<AnalysisV>, EngineError>
    decreases maxd - depth, 0int, p.len() - i,
{
    if i >= p.len() {
        Ok(Seq::empty())
    } else if depth >= maxd {
        Err(EngineError::RecursionLimitExceeded)
    } else {
        match spec_analyze(cfg, base, maxd, p[i].1, p[i].0, depth + 1, do_extraction) {
            Ok(first) => match spec_analyze_list(cfg, base, maxd, p, i + 1, depth, do_extraction) {
                Ok(rest) => Ok(first + rest),
                Err(e) => Err(e),
            },
            Err(e) => Err(e),
        }
    }
}

/// No match of a scan of `data` under `cfg` yields extraction output that
/// asks for recursion: whatever extraction produces is empty, absent, or
/// flagged `do_not_recurse`. An analysis of such a buffer never recurses,
/// so it can never trip the recursion guard.
pub open spec fn recursion_free(cfg: ScanConfigV, data: Seq<u8>) -> bool {
    forall|i: int|
        0 <= i < spec_scan(cfg, spec_default_table(), data).len() ==> {
            let r = #[trigger] spec_scan(cfg, spec_default_table(), data)[i];
            match spec_extract_output(data, r) {
                Some(out) => out.len() == 0 || extractor_dnr(r.preferred_extractor),
                None => true,
            }
        }
}

impl Binwalk {
    /// The engine is well formed: it carries the built-in table.
    pub open spec fn wf(self) -> bool {
        &&& self@.table == spec_default_table()
        &&& self@.max_depth == spec_recursion_limit()
    }

    /// The matcher configuration this engine scans under.
    pub open spec fn scan_cfg(self) -> ScanConfigV {
        ScanConfigV { only: self@.only, exclude: self@.exclude, search_all: self@.search_all }
    }

    /// An engine over the built-in table with no filters, no `search_all`,
    /// and the default output directory.
    pub fn new() -> (bw: Binwalk)
        ensures
            bw.wf(),
            bw@.only is None,
            bw@.exclude is None,
            !bw@.search_all,
            bw@.base_target_file == Seq::<char>::empty(),
            bw@.base_output_directory == "extractions"@,
    {
        let bw = Binwalk {
            signatures: default_signatures(),
            only: None,
            exclude: None,
            search_all: false,
            max_depth: 4,
            base_target_file: String::new(),
            base_output_directory: String::from_str("extractions"),
        };
        proof {
            assert(bw@.base_target_file =~= Seq::<char>::empty());
        }
        bw
    }

    /// An engine with name filters and the `search_all` policy.
    ///
    /// Fails with `ConfigurationError` when a filter names no known
    /// signature; unknown filter names are rejected rather than silently
    /// matching nothing.
    pub fn configure(
        target_file_name: Option<String>,
        output_directory: Option<String>,
        only: Option<Vec<String>>,
        exclude: Option<Vec<String>>,
        full_search: bool,
    ) -> (res: Result<Binwalk, EngineError>)
        ensures
            res is Ok <==> names_known(names_view(only), spec_default_table()) && names_known(
                names_view(exclude),
                spec_default_table(),
            ),
            (res matches Ok(bw) ==> {
                &&& bw.wf()
                &&& bw@.only == names_view(only)
                &&& bw@.exclude == names_view(exclude)
                &&& bw@.search_all == full_search
                &&& bw@.base_target_file == (match target_file_name {
                    Some(s) => s@,
                    None => Seq::<char>::empty(),
                })
                &&& bw@.base_output_directory == (match output_directory {
                    Some(s) => s@,
                    None => "extractions"@,
                })
            }),
            (res matches Err(e) ==> e == EngineError::ConfigurationError),
    {
        let signatures = default_signatures();
        let ok_only = match &only {
            Some(ns) => names_all_known(ns, &signatures),
            None => true,
        };
        let ok_exclude = match &exclude {
            Some(ns) => names_all_known(ns, &signatures),
            None => true,
        };
        if !ok_only || !ok_exclude {
            return Err(EngineError::ConfigurationError);
        }
        let base_target_file = match target_file_name {
            Some(s) => s,
            None => String::new(),
        };
        let base_output_directory = match output_directory {
            Some(s) => s,
            None => String::from_str("extractions"),
        };
        let bw = Binwalk {
            signatures,
            only,
            exclude,
            search_all: full_search,
            max_depth: 4,
            base_target_file,
            base_output_directory,
        };
        Ok(bw)
    }

    /// How many signatures the table holds.
    pub fn signature_count(&self) -> (n: u64)
        requires
            self.wf(),
        ensures
            n as int == spec_default_table().len(),
    {
        self.signatures.len() as u64
    }

    /// The configured target file name.
    pub fn base_target_file(&self) -> (r: &String)
        ensures
            r@ == self@.base_target_file,
    {
        &self.base_target_file
    }

    /// The configured extraction output directory.
    pub fn base_output_directory(&self) -> (r: &String)
        ensures
            r@ == self@.base_output_directory,
    {
        &self.base_output_directory
    }

    /// Looks the table up by signature name: the extractor associated with
    /// the named signature, or `None` when the name is unknown or the
    /// signature has no extractor.
    pub fn extractor_for(&self, name: &String) -> (r: Option<Extractor>)
        requires
            self.wf(),
        ensures
            (r matches Some(e) ==> exists|i: int|
                0 <= i < spec_default_table().len() && (#[trigger] spec_default_table()[i]).name
                    == name@ && spec_default_table()[i].extractor == Some(e@)),
            (r is None ==> forall|i: int|
                0 <= i < spec_default_table().len() ==> ((#[trigger] spec_default_table()[i]).name
                    != name@ || spec_default_table()[i].extractor is None)),
    {
        proof {
            lemma_default_table_wf();
            lemma_table_distinct(spec_default_table());
        }
        let mut i: usize = 0;
        while i < self.signatures.len()
            invariant
                self.wf(),
                0 <= i <= self@.table.len(),
                self@.table == spec_default_table(),
                forall|k: int| 0 <= k < i ==> (#[trigger] self@.table[k]).name != name@,
                forall|a: int, b: int|
                    0 <= a < spec_default_table().len() && 0 <= b < spec_default_table().len()
                        && a != b ==> (#[trigger] spec_default_table()[a]).name != (
                    #[trigger] spec_default_table()[b]).name,
            decreases self@.table.len() - i,
        {
            proof {
                assert(self@.table[i as int] == self.signatures@[i as int]@);
            }
            if self.signatures[i].name.eq(name) {
                match &self.signatures[i].extractor {
                    Some(e) => {
                        let r = crate::matcher::copy_extractor(e);
                        return Some(r);
                    },
                    None => {
                        return None;
                    },
                }
            }
            i += 1;
        }
        None
    }

    /// Scans a byte buffer.
    ///
    /// An empty buffer is invalid input; any other buffer yields exactly
    /// [`spec_scan`] of the buffer under this engine's configuration.
    pub fn scan_bytes(&self, data: &[u8]) -> (res: Result<Vec<SignatureResult>, EngineError>)
        requires
            self.wf(),
        ensures
            match res {
                Ok(v) => data@.len() > 0 && result_views(v@) == spec_scan(
                    self.scan_cfg(),
                    spec_default_table(),
                    data@,
                ),
                Err(e) => e == EngineError::InvalidInput && data@.len() == 0,
            },
    {
        if data.len() == 0 {
            return Err(EngineError::InvalidInput);
        }
        let res = scan_table(&self.signatures, &self.only, &self.exclude, self.search_all, data);
        Ok(res)
    }

    /// Runs extraction over a caller-supplied list of matches.
    ///
    /// Every match of the list is represented in the output under its
    /// `<offset>-<id>` key, whether its extraction succeeded, failed or was
    /// declined: one failed extraction never suppresses another. Built-in
    /// routines run here; a match wanting an external command is recorded
    /// as not yet extracted, and the caller runs the command through
    /// [`crate::extract::external_job`] and
    /// [`crate::extract::record_external_result`].
    pub fn extract_bytes(&self, data: &[u8], file_map: &Vec<SignatureResult>) -> (res: Vec<
        (String, ExtractionResult),
    >)
        ensures
            res@.len() == file_map@.len(),
            forall|i: int|
                0 <= i < res@.len() ==> (#[trigger] res@[i]).0@ == key_of(file_map@[i]@)
                    && res@[i].1@ == spec_extract_one(
                    data@,
                    self@.base_output_directory,
                    file_map@[i]@,
                ),
    {
        let mut res: Vec<(String, ExtractionResult)> = Vec::new();
        let mut i: usize = 0;
        while i < file_map.len()
            invariant
                0 <= i <= file_map@.len(),
                res@.len() == i,
                forall|k: int|
                    0 <= k < i ==> (#[trigger] res@[k]).0@ == key_of(file_map@[k]@)
                        && res@[k].1@ == spec_extract_one(
                        data@,
                        self@.base_output_directory,
                        file_map@[k]@,
                    ),
            decreases file_map@.len() - i,
        {
            let (key, record, _produced) = extract_one(data, &self.base_output_directory,
                &file_map[i]);
            res.push((key, record));
            i += 1;
        }
        res
    }

    /// One level of the recursion driver: scans `data`, optionally runs
    /// extraction, and analyses every recursable extracted output at
    /// `depth + 1`, failing once the depth limit is reached while output
    /// still asks for recursion.
    fn analyze_rec(&self, data: &[u8], file_path: String, depth: usize, do_extraction: bool)
        -> (res: Result<Vec<AnalysisResults>, EngineError>)
        requires
            self.wf(),
            depth <= self@.max_depth,
            data@.len() > 0,
        ensures
            match res {
                Ok(v) => {
                    &&& v@.len() >= 1
                    &&& (!do_extraction ==> v@.len() == 1)
                    &&& v@[0].file_path@ == file_path@
                    &&& result_views(v@[0].file_map@) == spec_scan(
                        self.scan_cfg(),
                        spec_default_table(),
                        data@,
                    )
                    &&& (do_extraction ==> v@[0].extractions@.len() == v@[0].file_map@.len()
                        && forall|i: int|
                        0 <= i < v@[0].extractions@.len()
                            ==> (#[trigger] v@[0].extractions@[i]).0@ == key_of(
                            v@[0].file_map@[i]@,
                        ) && v@[0].extractions@[i].1@ == spec_extract_one(
                            data@,
                            self@.base_output_directory,
                            v@[0].file_map@[i]@,
                        ))
                    &&& forall|k: int|
                        0 <= k < v@.len() ==> sorted_by_offset(
                            result_views((#[trigger] v@[k]).file_map@),
                        ) && no_duplicate_matches(result_views(v@[k].file_map@))
                    &&& forall|k: int|
                        0 <= k < v@.len() ==> (#[trigger] v@[k]).extractions@.len() == (
                        if do_extraction {
                            v@[k].file_map@.len()
                        } else {
                            0
                        })
                },
                Err(e) => e == EngineError::RecursionLimitExceeded && do_extraction
                    && !recursion_free(self.scan_cfg(), data@),
            },
            match res {
                Ok(v) => spec_analyze(
                    self.scan_cfg(),
                    self@.base_output_directory,
                    self@.max_depth,
                    data@,
                    file_path@,
                    depth as int,
                    do_extraction,
                ) == Ok::<Seq<AnalysisV>, EngineError>(analysis_views(v@)),
                Err(e) => spec_analyze(
                    self.scan_cfg(),
                    self@.base_output_directory,
                    self@.max_depth,
                    data@,
                    file_path@,
                    depth as int,
                    do_extraction,
                ) == Err::<Seq<AnalysisV>, EngineError>(e),
            },
        decreases self@.max_depth - depth,
    {
        proof {
            lemma_default_table_wf();
            lemma_table_distinct(spec_default_table());
            lemma_scan_wf(self.scan_cfg(), spec_default_table(), data@);
        }
        let ghost cfg = self.scan_cfg();
        let ghost base = self@.base_output_directory;
        let ghost maxd = self@.max_depth as int;
        let ghost path0 = file_path@;
        let ghost s = spec_scan(cfg, spec_default_table(), data@);
        let file_map = scan_table(&self.signatures, &self.only, &self.exclude, self.search_all,
            data);
        let mut extractions: Vec<(String, ExtractionResult)> = Vec::new();
        let mut pending: Vec<(String, Vec<u8>)> = Vec::new();
        if do_extraction {
            let mut i: usize = 0;
            while i < file_map.len()
                invariant
                    0 <= i <= file_map@.len(),
                    extractions@.len() == i,
                    forall|k: int|
                        0 <= k < i ==> (#[trigger] extractions@[k]).0@ == key_of(file_map@[k]@)
                            && extractions@[k].1@ == spec_extract_one(
                            data@,
                            self@.base_output_directory,
                            file_map@[k]@,
                        ),
                    forall|q: int|
                        0 <= q < pending@.len() ==> (#[trigger] pending@[q]).1@.len() > 0,
                    cfg == self.scan_cfg(),
                    base == self@.base_output_directory,
                    path0 == file_path@,
                    s == spec_scan(cfg, spec_default_table(), data@),
                    result_views(file_map@) == s,
                    pending_views(pending@) == spec_pending_upto(data@, path0, s, i as int),
                    recursion_free(self.scan_cfg(), data@) ==> pending@.len() == 0,
                decreases file_map@.len() - i,
            {
                proof {
                    assert(result_views(file_map@)[i as int] == file_map@[i as int]@);
                }
                let (key, record, produced) = extract_one(data, &self.base_output_directory,
                    &file_map[i]);
                match produced {
                    Some(bytes) => {
                        if !record.do_not_recurse && bytes.len() > 0 {
                            proof {
                                if recursion_free(self.scan_cfg(), data@) {
                                    assert(s[i as int] == file_map@[i as int]@);
                                    assert(spec_extract_output(data@, s[i as int]) == Some(
                                        bytes@,
                                    ));
                                    assert(false);
                                }
                            }
                            let ghost out_b = bytes@;
                            let mut child_path = file_path.clone();
                            child_path.append("/");
                            child_path.append(key.as_str());
                            let ghost pend0 = pending@;
                            proof {
                                lemma_pending_views_push(pend0, (child_path, bytes));
                                assert(child_path@ =~= path0 + "/"@ + key_of(s[i as int]));
                            }
                            pending.push((child_path, bytes));
                            proof {
                                assert(spec_extract_output(data@, s[i as int]) == Some(out_b));
                                assert(!extractor_dnr(s[i as int].preferred_extractor));
                                assert(spec_pending_upto(data@, path0, s, i + 1)
                                    == spec_pending_upto(data@, path0, s, i as int) + seq![
                                    (path0 + "/"@ + key_of(s[i as int]), out_b),
                                ]);
                                assert(pending_views(pending@) =~= spec_pending_upto(
                                    data@,
                                    path0,
                                    s,
                                    i + 1,
                                ));
                            }
                        } else {
                            proof {
                                assert(spec_extract_output(data@, s[i as int]) == Some(bytes@));
                                assert(spec_pending_upto(data@, path0, s, i + 1)
                                    =~= spec_pending_upto(data@, path0, s, i as int));
                            }
                        }
                    },
                    None => {
                        proof {
                            assert(spec_extract_output(data@, s[i as int]) is None);
                            assert(spec_pending_upto(data@, path0, s, i + 1)
                                =~= spec_pending_upto(data@, path0, s, i as int));
                        }
                    },
                }
                extractions.push((key, record));
                i += 1;
            }
        }
        let ghost root_map = file_map@;
        let ghost root_extractions = extractions@;
        let ghost p_spec = if do_extraction {
            spec_pending(data@, path0, s)
        } else {
            Seq::<(Seq<char>, Seq<u8>)>::empty()
        };
        let ghost rootv = AnalysisV {
            file_path: path0,
            file_map: s,
            extractions: if do_extraction {
                spec_extractions(data@, base, s)
            } else {
                Seq::<(Seq<char>, crate::types::ExtractionResultV)>::empty()
            },
        };
        proof {
            assert(result_views(file_map@).len() == file_map@.len());
            if do_extraction {
                assert(pending_views(pending@) == spec_pending_upto(
                    data@,
                    path0,
                    s,
                    file_map@.len() as int,
                ));
                assert(pending_views(pending@) == p_spec);
                assert forall|k: int|
                    0 <= k < extractions@.len() implies extraction_entry_views(extractions@)[k]
                    == spec_extractions(data@, base, s)[k] by {
                    assert(result_views(file_map@)[k] == file_map@[k]@);
                    assert(extraction_entry_views(extractions@)[k] == (
                        extractions@[k].0@,
                        extractions@[k].1@,
                    ));
                    assert(spec_extractions(data@, base, s)[k] == (
                        key_of(s[k]),
                        spec_extract_one(data@, base, s[k]),
                    ));
                }
                assert(extraction_entry_views(extractions@) =~~= spec_extractions(
                    data@,
                    base,
                    s,
                ));
            } else {
                assert(pending_views(pending@) =~= p_spec);
                assert(extraction_entry_views(extractions@) =~= Seq::<
                    (Seq<char>, crate::types::ExtractionResultV),
                >::empty());
            }
        }
        let root = AnalysisResults { file_path, file_map, extractions };
        let mut out: Vec<AnalysisResults> = Vec::new();
        out.push(root);
        proof {
            assert(analysis_view(root) =~~= rootv);
            assert(analysis_views(out@) =~= seq![rootv]);
            assert(spec_analyze(cfg, base, maxd, data@, path0, depth as int, do_extraction) == (
            match spec_analyze_list(cfg, base, maxd, p_spec, 0, depth as int, do_extraction) {
                Ok(rest) => Ok(seq![rootv] + rest),
                Err(e) => Err::<Seq<AnalysisV>, EngineError>(e),
            }));
        }
        let mut q: usize = 0;
        while q < pending.len()
            invariant
                self.wf(),
                depth <= self@.max_depth,
                out@.len() >= 1,
                out@[0].file_path@ == file_path@,
                out@[0].file_map@ == root_map,
                out@[0].extractions@ == root_extractions,
                result_views(root_map) == spec_scan(self.scan_cfg(), spec_default_table(), data@),
                do_extraction ==> root_extractions.len() == root_map.len() && forall|i: int|
                    0 <= i < root_extractions.len() ==> (#[trigger] root_extractions[i]).0@
                        == key_of(root_map[i]@) && root_extractions[i].1@ == spec_extract_one(
                        data@,
                        self@.base_output_directory,
                        root_map[i]@,
                    ),
                !do_extraction ==> root_extractions.len() == 0,
                forall|k: int|
                    0 <= k < out@.len() ==> sorted_by_offset(
                        result_views((#[trigger] out@[k]).file_map@),
                    ) && no_duplicate_matches(result_views(out@[k].file_map@)),
                forall|k: int|
                    0 <= k < out@.len() ==> (#[trigger] out@[k]).extractions@.len() == (
                    if do_extraction {
                        out@[k].file_map@.len()
                    } else {
                        0
                    }),
                forall|p: int| 0 <= p < pending@.len() ==> (#[trigger] pending@[p]).1@.len() > 0,
                pending@.len() > 0 ==> do_extraction,
                !do_extraction ==> out@.len() == 1,
                recursion_free(self.scan_cfg(), data@) ==> pending@.len() == 0,
                0 <= q <= pending@.len(),
                cfg == self.scan_cfg(),
                base == self@.base_output_directory,
                maxd == self@.max_depth as int,
                path0 == file_path@,
                s == spec_scan(cfg, spec_default_table(), data@),
                pending_views(pending@) == p_spec,
                match spec_analyze_list(cfg, base, maxd, p_spec, q as int, depth as int,
                    do_extraction) {
                    Ok(rest) => spec_analyze(cfg, base, maxd, data@, path0, depth as int,
                        do_extraction) == Ok::<Seq<AnalysisV>, EngineError>(analysis_views(out@) + rest),
                    Err(e) => spec_analyze(cfg, base, maxd, data@, path0, depth as int,
                        do_extraction) == Err::<Seq<AnalysisV>, EngineError>(e),
                },
            decreases pending@.len() - q,
        {
            proof {
                assert(p_spec.len() == pending@.len());
                assert(pending_views(pending@)[q as int] == (
                    pending@[q as int].0@,
                    pending@[q as int].1@,
                ));
            }
            if depth == self.max_depth {
                proof {
                    assert(spec_analyze_list(cfg, base, maxd, p_spec, q as int, depth as int,
                        do_extraction) == Err::<Seq<AnalysisV>, EngineError>(
                        EngineError::RecursionLimitExceeded,
                    ));
                }
                return Err(EngineError::RecursionLimitExceeded);
            }
            let child_path = pending[q].0.clone();
            let sub = self.analyze_rec(pending[q].1.as_slice(), child_path, depth + 1,
                do_extraction);
            proof {
                assert(spec_analyze_list(cfg, base, maxd, p_spec, q as int, depth as int,
                    do_extraction) == (match spec_analyze(cfg, base, maxd, p_spec[q as int].1,
                    p_spec[q as int].0, depth + 1, do_extraction) {
                    Ok(first) => match spec_analyze_list(cfg, base, maxd, p_spec, q + 1,
                        depth as int, do_extraction) {
                        Ok(rest) => Ok(first + rest),
                        Err(e) => Err::<Seq<AnalysisV>, EngineError>(e),
                    },
                    Err(e) => Err::<Seq<AnalysisV>, EngineError>(e),
                }));
            }
            match sub {
                Ok(mut v) => {
                    let ghost out0 = out@;
                    let ghost sub0 = v@;
                    proof {
                        assert(spec_analyze(cfg, base, maxd, p_spec[q as int].1,
                            p_spec[q as int].0, depth + 1, do_extraction) == Ok::<Seq<AnalysisV>, EngineError>(
                            analysis_views(sub0),
                        ));
                    }
                    out.append(&mut v);
                    proof {
                        assert(out@ == out0 + sub0);
                        assert(out@[0] == out0[0]);
                        assert forall|k: int|
                            0 <= k < out@.len() implies sorted_by_offset(
                            result_views((#[trigger] out@[k]).file_map@),
                        ) && no_duplicate_matches(result_views(out@[k].file_map@))
                            && out@[k].extractions@.len() == (if do_extraction {
                            out@[k].file_map@.len()
                        } else {
                            0
                        }) by {
                            if k < out0.len() {
                                assert(out@[k] == out0[k]);
                            } else {
                                assert(out@[k] == sub0[k - out0.len()]);
                            }
                        }
                        lemma_analysis_views_concat(out0, sub0);
                        match spec_analyze_list(cfg, base, maxd, p_spec, q + 1, depth as int,
                            do_extraction) {
                            Ok(rest) => {
                                assert((analysis_views(out0) + analysis_views(sub0)) + rest
                                    =~= analysis_views(out0) + (analysis_views(sub0) + rest));
                            },
                            Err(_) => {},
                        }
                    }
                },
                Err(e) => {
                    return Err(e);
                },
            }
            q += 1;
        }
        proof {
            assert(spec_analyze_list(cfg, base, maxd, p_spec, q as int, depth as int,
                do_extraction) == Ok::<Seq<AnalysisV>, EngineError>(Seq::<AnalysisV>::empty()));
            assert(analysis_views(out@) + Seq::<AnalysisV>::empty() =~= analysis_views(out@));
        }
        Ok(out)
    }

    /// Analyses a buffer recursively: scans it, optionally extracts every
    /// match, and re-analyses each recursable extracted output, one level
    /// deeper each time. The first entry of the result is the analysis of
    /// the buffer itself; the matches of every entry are sorted ascending by
    /// offset with no duplicate `(offset, id)` pair. An empty buffer is
    /// invalid input, and recursion past the depth limit reports
    /// `RecursionLimitExceeded` instead of looping.
    pub fn analyze_bytes(&self, data: &[u8], file_path: &String, do_extraction: bool) -> (res:
        Result<Vec<AnalysisResults>, EngineError>)
        requires
            self.wf(),
        ensures
            match res {
                Ok(v) => {
                    &&& data@.len() > 0
                    &&& v@.len() >= 1
                    &&& (!do_extraction ==> v@.len() == 1)
                    &&& v@[0].file_path@ == file_path@
                    &&& result_views(v@[0].file_map@) == spec_scan(
                        self.scan_cfg(),
                        spec_default_table(),
                        data@,
                    )
                    &&& (do_extraction ==> forall|i: int|
                        0 <= i < v@[0].extractions@.len()
                            ==> (#[trigger] v@[0].extractions@[i]).0@ == key_of(
                            v@[0].file_map@[i]@,
                        ) && v@[0].extractions@[i].1@ == spec_extract_one(
                            data@,
                            self@.base_output_directory,
                            v@[0].file_map@[i]@,
                        ))
                    &&& forall|k: int|
                        0 <= k < v@.len() ==> sorted_by_offset(
                            result_views((#[trigger] v@[k]).file_map@),
                        ) && no_duplicate_matches(result_views(v@[k].file_map@))
                    &&& forall|k: int|
                        0 <= k < v@.len() ==> (#[trigger] v@[k]).extractions@.len() == (
                        if do_extraction {
                            v@[k].file_map@.len()
                        } else {
                            0
                        })
                },
                Err(e) => (e == EngineError::InvalidInput && data@.len() == 0) || (e
                    == EngineError::RecursionLimitExceeded && do_extraction && data@.len() > 0
                    && !recursion_free(self.scan_cfg(), data@)),
            },
            data@.len() > 0 ==> match res {
                Ok(v) => spec_analyze(
                    self.scan_cfg(),
                    self@.base_output_directory,
                    self@.max_depth,
                    data@,
                    file_path@,
                    0,
                    do_extraction,
                ) == Ok::<Seq<AnalysisV>, EngineError>(analysis_views(v@)),
                Err(e) => spec_analyze(
                    self.scan_cfg(),
                    self@.base_output_directory,
                    self@.max_depth,
                    data@,
                    file_path@,
                    0,
                    do_extraction,
                ) == Err::<Seq<AnalysisV>, EngineError>(e),
            },
    {
        if data.len() == 0 {
            return Err(EngineError::InvalidInput);
        }
        self.analyze_rec(data, file_path.clone(), 0, do_extraction)
    }
}

} // verus!
