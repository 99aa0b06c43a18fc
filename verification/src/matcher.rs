//! The matcher: scans an untrusted byte buffer for signature matches at every
//! offset.
//!
//! The scan tests every enabled table entry at every offset. Unless
//! `search_all` is set, only the highest-confidence match per offset is
//! retained, ties broken by table order (first entry wins), and a match whose
//! offset falls inside the byte range of an already-accepted match is
//! suppressed, so the ranges of accepted matches never overlap; a signature
//! flagged `always_display` bypasses that suppression, and `search_all`
//! disables it. Results come out in ascending offset order, stable for equal
//! offsets. The buffer is never read out of bounds, and every recorded
//! `size` is clamped to the bytes that remain after the match offset.
//!
//! A `short` signature is a brief pattern-only magic. The table classifies
//! it for the listing and assigns it the lowest confidences, so it loses
//! every per-offset contest against a structural signature; no further
//! short-match suppression pass exists beyond that and the overlap rule.

use vstd::prelude::*;

use crate::types::{Extractor, ExtractorType, Signature, SignatureResult, SignatureResultV,
    SignatureV, SizeRule};

verus! {

/// The parts of the engine configuration the matcher reads.
#[verifier::ext_equal]
pub struct ScanConfigV {
    pub only: Option<Seq<Seq<char>>>,
    pub exclude: Option<Seq<Seq<char>>>,
    pub search_all: bool,
}

/// The view of an optional list of signature names.
pub open spec fn names_view(o: Option<Vec<String>>) -> Option<Seq<Seq<char>>> {
    match o {
        Some(v) => Some(v@.map_values(|s: String| s@)),
        None => None,
    }
}

/// The views of a list of table entries.
pub open spec fn sig_views(t: Seq<Signature>) -> Seq<SignatureV> {
    t.map_values(|s: Signature| s@)
}

/// The views of a list of scan results.
pub open spec fn result_views(t: Seq<SignatureResult>) -> Seq<SignatureResultV> {
    t.map_values(|r: SignatureResult| r@)
}

/// `n` occurs in `names`.
pub open spec fn name_listed(names: Seq<Seq<char>>, n: Seq<char>) -> bool {
    exists|i: int| 0 <= i < names.len() && names[i] == n
}

/// The only-filter (when present) lists the signature's name and the
/// exclude filter (when present) does not; exclude is applied after only.
pub open spec fn sig_enabled(cfg: ScanConfigV, sig: SignatureV) -> bool {
    &&& match cfg.only {
        Some(inc) => name_listed(inc, sig.name),
        None => true,
    }
    &&& match cfg.exclude {
        Some(exc) => !name_listed(exc, sig.name),
        None => true,
    }
}

/// The name filters admit `name`: the only-filter (when present) lists it
/// and the exclude filter (when present) does not.
pub open spec fn filter_ok(cfg: ScanConfigV, name: Seq<char>) -> bool {
    &&& match cfg.only {
        Some(ns) => name_listed(ns, name),
        None => true,
    }
    &&& match cfg.exclude {
        Some(ns) => !name_listed(ns, name),
        None => true,
    }
}

/// The signature's magic bytes occur at offset `off` of `data`.
pub open spec fn sig_matches_at(sig: SignatureV, data: Seq<u8>, off: int) -> bool {
    &&& sig.magic.len() > 0
    &&& 0 <= off
    &&& off + sig.magic.len() <= data.len()
    &&& data.subrange(off, off + sig.magic.len() as int) == sig.magic
}

/// The 32-bit little-endian integer stored at position `p` of `data`.
pub open spec fn le32_at(data: Seq<u8>, p: int) -> int {
    data[p] + data[p + 1] * 0x100 + data[p + 2] * 0x10000 + data[p + 3] * 0x1000000
}

/// The recorded size of a match of `sig` at `off`: the signature's nominal
/// size, clamped to the bytes that remain after `off`. A length field that
/// does not fit inside the buffer falls back to the magic length.
pub open spec fn sig_size(sig: SignatureV, data: Seq<u8>, off: int) -> int
    recommends
        0 <= off < data.len(),
{
    let rem = data.len() - off;
    let nominal = match sig.size_rule {
        SizeRule::Fixed(n) => n as int,
        SizeRule::Rest => rem,
        SizeRule::LenLe32 { at, add } => if off + at + 4 <= data.len() {
            le32_at(data, off + at) + add
        } else {
            sig.magic.len() as int
        },
    };
    if nominal <= rem {
        nominal
    } else {
        rem
    }
}

/// Extraction is declined when the signature has no extractor, or an
/// extractor with no routine behind it.
pub open spec fn extraction_declined_for(sig: SignatureV) -> bool {
    match sig.extractor {
        None => true,
        Some(e) => e.utility is NoExtractor,
    }
}

/// The scan result recorded for a match of `sig` at `off`. A declined match
/// carries no preferred extractor: a result's `extraction_declined` holds
/// exactly when its `preferred_extractor` is absent.
pub open spec fn result_of(sig: SignatureV, data: Seq<u8>, off: int) -> SignatureResultV {
    SignatureResultV {
        offset: off,
        id: sig.id,
        size: sig_size(sig, data, off),
        name: sig.name,
        confidence: sig.confidence,
        description: sig.description,
        always_display: sig.always_display,
        extraction_declined: extraction_declined_for(sig),
        preferred_extractor: if extraction_declined_for(sig) {
            None
        } else {
            sig.extractor
        },
    }
}

/// All matches at `off` among the first `n` table entries, in table order.
pub open spec fn matches_upto(
    cfg: ScanConfigV,
    t: Seq<SignatureV>,
    data: Seq<u8>,
    off: int,
    n: int,
) -> Seq<SignatureResultV>
    decreases n,
{
    if n <= 0 {
        Seq::empty()
    } else {
        matches_upto(cfg, t, data, off, n - 1) + if sig_enabled(cfg, t[n - 1]) && sig_matches_at(
            t[n - 1],
            data,
            off,
        ) {
            seq![result_of(t[n - 1], data, off)]
        } else {
            Seq::empty()
        }
    }
}

/// A candidate at `off` is admitted outside `search_all` mode only when the
/// offset has passed the suppression bound `nv` — the end of the byte range
/// of the last accepted non-`always_display` match — or when the signature
/// itself is flagged `always_display`, which bypasses suppression.
pub open spec fn candidate_ok(sig: SignatureV, off: int, nv: int) -> bool {
    off >= nv || sig.always_display
}

/// The index of the best admitted match at `off` among the first `n` table
/// entries, under the suppression bound `nv`: the first entry of the highest
/// confidence, or `-1` when nothing is admitted.
pub open spec fn best_idx(
    cfg: ScanConfigV,
    t: Seq<SignatureV>,
    data: Seq<u8>,
    off: int,
    nv: int,
    n: int,
) -> int
    decreases n,
{
    if n <= 0 {
        -1
    } else {
        let prev = best_idx(cfg, t, data, off, nv, n - 1);
        if sig_enabled(cfg, t[n - 1]) && sig_matches_at(t[n - 1], data, off) && candidate_ok(
            t[n - 1],
            off,
            nv,
        ) && (prev == -1 || t[n - 1].confidence > t[prev].confidence) {
            n - 1
        } else {
            prev
        }
    }
}

/// What the scan records at one offset: every match in `search_all` mode
/// (no suppression), otherwise the single best admitted match, if any.
pub open spec fn offset_results(
    cfg: ScanConfigV,
    t: Seq<SignatureV>,
    data: Seq<u8>,
    off: int,
    nv: int,
) -> Seq<SignatureResultV> {
    if cfg.search_all {
        matches_upto(cfg, t, data, off, t.len() as int)
    } else {
        let b = best_idx(cfg, t, data, off, nv, t.len() as int);
        if b == -1 {
            Seq::empty()
        } else {
            seq![result_of(t[b], data, off)]
        }
    }
}

/// The suppression bound after the offset `off` is processed: accepting a
/// non-`always_display` match extends it past that match's byte range, so
/// later overlapping matches are suppressed; an `always_display` match
/// suppresses nothing.
pub open spec fn next_valid_after(
    cfg: ScanConfigV,
    t: Seq<SignatureV>,
    data: Seq<u8>,
    off: int,
    nv: int,
) -> int {
    if cfg.search_all {
        nv
    } else {
        let b = best_idx(cfg, t, data, off, nv, t.len() as int);
        if b == -1 || t[b].always_display {
            nv
        } else {
            let end = off + sig_size(t[b], data, off);
            if end > nv {
                end
            } else {
                nv
            }
        }
    }
}

/// The suppression bound in force when the offset `n` is reached.
pub open spec fn nv_upto(cfg: ScanConfigV, t: Seq<SignatureV>, data: Seq<u8>, n: int) -> int
    decreases n,
{
    if n <= 0 {
        0
    } else {
        next_valid_after(cfg, t, data, n - 1, nv_upto(cfg, t, data, n - 1))
    }
}

/// The scan's results over the offsets `0 .. n`, in offset order.
pub open spec fn scan_upto(
    cfg: ScanConfigV,
    t: Seq<SignatureV>,
    data: Seq<u8>,
    n: int,
) -> Seq<SignatureResultV>
    decreases n,
{
    if n <= 0 {
        Seq::empty()
    } else {
        scan_upto(cfg, t, data, n - 1) + offset_results(
            cfg,
            t,
            data,
            n - 1,
            nv_upto(cfg, t, data, n - 1),
        )
    }
}

/// What a scan of `data` returns: the matches at every offset of the buffer.
pub open spec fn spec_scan(cfg: ScanConfigV, t: Seq<SignatureV>, data: Seq<u8>) -> Seq<
    SignatureResultV,
> {
    scan_upto(cfg, t, data, data.len() as int)
}

/// Results are in ascending offset order.
pub open spec fn sorted_by_offset(s: Seq<SignatureResultV>) -> bool {
    forall|i: int, j: int|
        0 <= i < j < s.len() ==> (#[trigger] s[i]).offset <= (#[trigger] s[j]).offset
}

/// No two results share both offset and id.
pub open spec fn no_duplicate_matches(s: Seq<SignatureResultV>) -> bool {
    forall|i: int, j: int|
        0 <= i < j < s.len() ==> !((#[trigger] s[i]).offset == (#[trigger] s[j]).offset
            && s[i].id == s[j].id)
}

/// Every result lies inside a buffer of length `len`: its offset is a real
/// position and its size never reaches past the end of the buffer.
pub open spec fn results_bounded(s: Seq<SignatureResultV>, len: int) -> bool {
    forall|i: int|
        0 <= i < s.len() ==> 0 <= (#[trigger] s[i]).offset && s[i].offset < len && 0 <= s[i].size
            && s[i].offset + s[i].size <= len
}

/// The byte ranges `[offset, offset + size)` of results not flagged
/// `always_display` never overlap one another.
pub open spec fn no_overlaps(s: Seq<SignatureResultV>) -> bool {
    forall|i: int, j: int|
        0 <= i < j < s.len() && !(#[trigger] s[i]).always_display && !(
        #[trigger] s[j]).always_display ==> s[i].offset + s[i].size <= s[j].offset || s[j].offset
            + s[j].size <= s[i].offset
}

/// A result is marked `extraction_declined` exactly when it carries no
/// preferred extractor.
pub open spec fn declined_iff_no_extractor(s: Seq<SignatureResultV>) -> bool {
    forall|i: int|
        0 <= i < s.len() ==> ((#[trigger] s[i]).extraction_declined <==> s[i].preferred_extractor
            is None)
}

/// The table's entries have pairwise-distinct ids.
pub open spec fn distinct_ids(t: Seq<SignatureV>) -> bool {
    forall|i: int, j: int|
        0 <= i < t.len() && 0 <= j < t.len() && i != j ==> (#[trigger] t[i]).id != (
        #[trigger] t[j]).id
}

proof fn lemma_result_views_push(s: Seq<SignatureResult>, r: SignatureResult)
    ensures
        result_views(s.push(r)) == result_views(s).push(r@),
{
    assert(result_views(s.push(r)) =~= result_views(s).push(r@));
}

proof fn lemma_result_bounds(sig: SignatureV, data: Seq<u8>, off: int)
    requires
        sig_matches_at(sig, data, off),
    ensures
        result_of(sig, data, off).offset == off,
        0 <= result_of(sig, data, off).size,
        off + result_of(sig, data, off).size <= data.len(),
        result_of(sig, data, off).id == sig.id,
{
}

proof fn lemma_matches_upto_props(
    cfg: ScanConfigV,
    t: Seq<SignatureV>,
    data: Seq<u8>,
    off: int,
    n: int,
)
    requires
        distinct_ids(t),
        0 <= n <= t.len(),
        0 <= off < data.len(),
    ensures
        forall|i: int|
            0 <= i < matches_upto(cfg, t, data, off, n).len() ==> {
                let r = #[trigger] matches_upto(cfg, t, data, off, n)[i];
                r.offset == off && 0 <= r.size && off + r.size <= data.len()
            },
        forall|i: int|
            0 <= i < matches_upto(cfg, t, data, off, n).len() ==> exists|k: int|
                0 <= k < n && #[trigger] matches_upto(cfg, t, data, off, n)[i] == result_of(
                    t[k],
                    data,
                    off,
                ),
        forall|i: int, j: int|
            0 <= i < j < matches_upto(cfg, t, data, off, n).len()
                ==> (#[trigger] matches_upto(cfg, t, data, off, n)[i]).id != (
            #[trigger] matches_upto(cfg, t, data, off, n)[j]).id,
        forall|i: int|
            0 <= i < matches_upto(cfg, t, data, off, n).len() ==> filter_ok(
                cfg,
                (#[trigger] matches_upto(cfg, t, data, off, n)[i]).name,
            ),
        declined_iff_no_extractor(matches_upto(cfg, t, data, off, n)),
    decreases n,
{
    if n > 0 {
        lemma_matches_upto_props(cfg, t, data, off, n - 1);
        let prev = matches_upto(cfg, t, data, off, n - 1);
        let cur = matches_upto(cfg, t, data, off, n);
        if sig_enabled(cfg, t[n - 1]) && sig_matches_at(t[n - 1], data, off) {
            lemma_result_bounds(t[n - 1], data, off);
            assert(cur == prev + seq![result_of(t[n - 1], data, off)]);
            assert(cur[prev.len() as int] == result_of(t[n - 1], data, off));
            assert forall|i: int|
                0 <= i < cur.len() implies exists|k: int|
                0 <= k < n && #[trigger] cur[i] == result_of(t[k], data, off) by {
                if i < prev.len() {
                    assert(cur[i] == prev[i]);
                    let k = choose|k: int|
                        0 <= k < n - 1 && #[trigger] prev[i] == result_of(t[k], data, off);
                    assert(cur[i] == result_of(t[k], data, off));
                } else {
                    assert(cur[i] == result_of(t[n - 1], data, off));
                }
            }
            assert forall|i: int, j: int|
                0 <= i < j < cur.len() implies (#[trigger] cur[i]).id != (
            #[trigger] cur[j]).id by {
                if j < prev.len() {
                    assert(cur[i] == prev[i] && cur[j] == prev[j]);
                } else {
                    assert(cur[j] == result_of(t[n - 1], data, off));
                    assert(cur[i] == prev[i]);
                    let k = choose|k: int|
                        0 <= k < n - 1 && #[trigger] prev[i] == result_of(t[k], data, off);
                    assert(cur[i].id == t[k].id);
                    assert(t[k].id != t[n - 1].id);
                }
            }
        } else {
            assert(cur =~= prev);
        }
    }
}

proof fn lemma_best_idx_props(
    cfg: ScanConfigV,
    t: Seq<SignatureV>,
    data: Seq<u8>,
    off: int,
    nv: int,
    n: int,
)
    requires
        0 <= n <= t.len(),
    ensures
        -1 <= best_idx(cfg, t, data, off, nv, n) < n,
        best_idx(cfg, t, data, off, nv, n) != -1 ==> {
            let b = best_idx(cfg, t, data, off, nv, n);
            sig_enabled(cfg, t[b]) && sig_matches_at(t[b], data, off) && candidate_ok(
                t[b],
                off,
                nv,
            )
        },
    decreases n,
{
    if n > 0 {
        lemma_best_idx_props(cfg, t, data, off, nv, n - 1);
    }
}

proof fn lemma_offset_results_props(
    cfg: ScanConfigV,
    t: Seq<SignatureV>,
    data: Seq<u8>,
    off: int,
    nv: int,
)
    requires
        distinct_ids(t),
        0 <= off < data.len(),
    ensures
        forall|i: int|
            0 <= i < offset_results(cfg, t, data, off, nv).len() ==> {
                let r = #[trigger] offset_results(cfg, t, data, off, nv)[i];
                r.offset == off && 0 <= r.size && off + r.size <= data.len()
            },
        forall|i: int, j: int|
            0 <= i < j < offset_results(cfg, t, data, off, nv).len()
                ==> (#[trigger] offset_results(cfg, t, data, off, nv)[i]).id != (
            #[trigger] offset_results(cfg, t, data, off, nv)[j]).id,
        forall|i: int|
            0 <= i < offset_results(cfg, t, data, off, nv).len() ==> filter_ok(
                cfg,
                (#[trigger] offset_results(cfg, t, data, off, nv)[i]).name,
            ),
        declined_iff_no_extractor(offset_results(cfg, t, data, off, nv)),
        !cfg.search_all ==> forall|i: int|
            0 <= i < offset_results(cfg, t, data, off, nv).len() && !(
            #[trigger] offset_results(cfg, t, data, off, nv)[i]).always_display
                ==> offset_results(cfg, t, data, off, nv)[i].offset >= nv,
{
    if cfg.search_all {
        lemma_matches_upto_props(cfg, t, data, off, t.len() as int);
    } else {
        lemma_best_idx_props(cfg, t, data, off, nv, t.len() as int);
        let b = best_idx(cfg, t, data, off, nv, t.len() as int);
        if b != -1 {
            lemma_result_bounds(t[b], data, off);
        }
    }
}

proof fn lemma_scan_upto_props(cfg: ScanConfigV, t: Seq<SignatureV>, data: Seq<u8>, n: int)
    requires
        distinct_ids(t),
        n <= data.len(),
    ensures
        forall|i: int|
            0 <= i < scan_upto(cfg, t, data, n).len() ==> {
                let r = #[trigger] scan_upto(cfg, t, data, n)[i];
                0 <= r.offset && r.offset < n && 0 <= r.size && r.offset + r.size <= data.len()
            },
        sorted_by_offset(scan_upto(cfg, t, data, n)),
        no_duplicate_matches(scan_upto(cfg, t, data, n)),
        forall|i: int|
            0 <= i < scan_upto(cfg, t, data, n).len() ==> filter_ok(
                cfg,
                (#[trigger] scan_upto(cfg, t, data, n)[i]).name,
            ),
        declined_iff_no_extractor(scan_upto(cfg, t, data, n)),
        0 <= nv_upto(cfg, t, data, n),
        !cfg.search_all ==> forall|i: int|
            0 <= i < scan_upto(cfg, t, data, n).len() && !(
            #[trigger] scan_upto(cfg, t, data, n)[i]).always_display ==> scan_upto(
                cfg,
                t,
                data,
                n,
            )[i].offset + scan_upto(cfg, t, data, n)[i].size <= nv_upto(cfg, t, data, n),
        !cfg.search_all ==> no_overlaps(scan_upto(cfg, t, data, n)),
    decreases n,
{
    if n > 0 {
        lemma_scan_upto_props(cfg, t, data, n - 1);
        lemma_offset_results_props(cfg, t, data, n - 1, nv_upto(cfg, t, data, n - 1));
        let nv = nv_upto(cfg, t, data, n - 1);
        let nv1 = nv_upto(cfg, t, data, n);
        let prev = scan_upto(cfg, t, data, n - 1);
        let block = offset_results(cfg, t, data, n - 1, nv);
        let cur = scan_upto(cfg, t, data, n);
        assert(cur == prev + block);
        assert(nv1 == next_valid_after(cfg, t, data, n - 1, nv));
        assert(nv1 >= nv);
        assert forall|i: int|
            0 <= i < cur.len() implies 0 <= (#[trigger] cur[i]).offset && cur[i].offset < n && 0
            <= cur[i].size && cur[i].offset + cur[i].size <= data.len() by {
            if i < prev.len() {
                assert(cur[i] == prev[i]);
            } else {
                assert(cur[i] == block[i - prev.len()]);
            }
        }
        assert forall|i: int, j: int|
            0 <= i < j < cur.len() implies (#[trigger] cur[i]).offset <= (
        #[trigger] cur[j]).offset && !(cur[i].offset == cur[j].offset && cur[i].id
            == cur[j].id) by {
            if j < prev.len() {
                assert(cur[i] == prev[i] && cur[j] == prev[j]);
            } else if i < prev.len() {
                assert(cur[i] == prev[i]);
                assert(cur[j] == block[j - prev.len()]);
                assert(cur[i].offset < n - 1);
                assert(cur[j].offset == n - 1);
            } else {
                assert(cur[i] == block[i - prev.len()]);
                assert(cur[j] == block[j - prev.len()]);
            }
        }
        assert forall|i: int| 0 <= i < cur.len() implies filter_ok(
            cfg,
            (#[trigger] cur[i]).name,
        ) by {
            if i < prev.len() {
                assert(cur[i] == prev[i]);
            } else {
                assert(cur[i] == block[i - prev.len()]);
            }
        }
        assert forall|i: int|
            0 <= i < cur.len() implies ((#[trigger] cur[i]).extraction_declined <==> cur[i]
            .preferred_extractor is None) by {
            if i < prev.len() {
                assert(cur[i] == prev[i]);
            } else {
                assert(cur[i] == block[i - prev.len()]);
            }
        }
        if !cfg.search_all {
            assert forall|i: int|
                0 <= i < cur.len() && !(#[trigger] cur[i]).always_display implies cur[i].offset
                + cur[i].size <= nv1 by {
                if i < prev.len() {
                    assert(cur[i] == prev[i]);
                } else {
                    assert(cur[i] == block[i - prev.len()]);
                    let b = best_idx(cfg, t, data, n - 1, nv, t.len() as int);
                    assert(b != -1);
                    assert(cur[i] == result_of(t[b], data, n - 1));
                }
            }
            assert forall|i: int, j: int|
                0 <= i < j < cur.len() && !(#[trigger] cur[i]).always_display && !(
                #[trigger] cur[j]).always_display implies cur[i].offset + cur[i].size
                <= cur[j].offset || cur[j].offset + cur[j].size <= cur[i].offset by {
                if j < prev.len() {
                    assert(cur[i] == prev[i] && cur[j] == prev[j]);
                } else if i < prev.len() {
                    assert(cur[i] == prev[i]);
                    assert(cur[j] == block[j - prev.len()]);
                    assert(cur[j].offset >= nv);
                    assert(cur[i].offset + cur[i].size <= nv);
                } else {
                    assert(block.len() <= 1);
                }
            }
        }
    }
}

/// The scan respects the name filters: when an only-list is configured,
/// every result's name is on it, and no result's name is ever on the
/// exclude list.
pub proof fn lemma_scan_respects_filters(cfg: ScanConfigV, t: Seq<SignatureV>, data: Seq<u8>)
    requires
        distinct_ids(t),
    ensures
        forall|i: int|
            0 <= i < spec_scan(cfg, t, data).len() ==> filter_ok(
                cfg,
                (#[trigger] spec_scan(cfg, t, data)[i]).name,
            ),
{
    lemma_scan_upto_props(cfg, t, data, data.len() as int);
}

/// The scan invariants: for every configuration, every well-formed table and
/// every buffer, the scan's results come sorted ascending by offset, no two
/// results share an `(offset, id)` pair, every result's byte range
/// `[offset, offset + size)` lies inside the buffer, a result is declined
/// exactly when it carries no extractor, and outside `search_all` mode the
/// ranges of results not flagged `always_display` never overlap.
pub proof fn lemma_scan_wf(cfg: ScanConfigV, t: Seq<SignatureV>, data: Seq<u8>)
    requires
        distinct_ids(t),
    ensures
        sorted_by_offset(spec_scan(cfg, t, data)),
        no_duplicate_matches(spec_scan(cfg, t, data)),
        results_bounded(spec_scan(cfg, t, data), data.len() as int),
        declined_iff_no_extractor(spec_scan(cfg, t, data)),
        !cfg.search_all ==> no_overlaps(spec_scan(cfg, t, data)),
{
    lemma_scan_upto_props(cfg, t, data, data.len() as int);
}

/// Scanning depends only on the buffer's bytes and the configuration's and
/// table's views: two scans of equal buffers under equal configurations
/// return the same results.
pub proof fn lemma_scan_deterministic(
    cfg1: ScanConfigV,
    t1: Seq<SignatureV>,
    data1: Seq<u8>,
    cfg2: ScanConfigV,
    t2: Seq<SignatureV>,
    data2: Seq<u8>,
)
    requires
        cfg1 == cfg2,
        t1 == t2,
        data1 == data2,
    ensures
        spec_scan(cfg1, t1, data1) == spec_scan(cfg2, t2, data2),
{
}

/// Whether the magic bytes of `sig` occur at offset `off` of `data`.
fn magic_matches(sig: &Signature, data: &[u8], off: usize) -> (r: bool)
    ensures
        r == sig_matches_at(sig@, data@, off as int),
{
    let m = sig.magic.len();
    let dlen = data.len();
    if m == 0 || dlen < m || off > dlen - m {
        return false;
    }
    let mut j: usize = 0;
    while j < m
        invariant
            0 <= j <= m,
            m == sig.magic@.len(),
            off + m <= data@.len(),
            data@.len() <= usize::MAX,
            m > 0,
            forall|k: int| 0 <= k < j ==> data@[off + k] == sig.magic@[k],
        decreases m - j,
    {
        if data[off + j] != sig.magic[j] {
            proof {
                assert(data@.subrange(off as int, off + m)[j as int] != sig.magic@[j as int]);
            }
            return false;
        }
        j += 1;
    }
    proof {
        assert(data@.subrange(off as int, off + m) =~= sig.magic@);
    }
    true
}

/// Copies a list of strings.
fn copy_strings(v: &Vec<String>) -> (r: Vec<String>)
    ensures
        r@.map_values(|s: String| s@) == v@.map_values(|s: String| s@),
{
    let mut r: Vec<String> = Vec::new();
    let mut i: usize = 0;
    while i < v.len()
        invariant
            0 <= i <= v@.len(),
            r@.len() == i,
            forall|k: int| 0 <= k < i ==> r@[k]@ == v@[k]@,
        decreases v@.len() - i,
    {
        r.push(v[i].clone());
        i += 1;
    }
    proof {
        assert(r@.map_values(|s: String| s@) =~= v@.map_values(|s: String| s@));
    }
    r
}

/// Copies a list of exit codes.
fn copy_codes(v: &Vec<i32>) -> (r: Vec<i32>)
    ensures
        r@ == v@,
{
    let mut r: Vec<i32> = Vec::new();
    let mut i: usize = 0;
    while i < v.len()
        invariant
            0 <= i <= v@.len(),
            r@ == v@.subrange(0, i as int),
        decreases v@.len() - i,
    {
        r.push(v[i]);
        proof {
            assert(r@ =~= v@.subrange(0, i + 1));
        }
        i += 1;
    }
    proof {
        assert(v@.subrange(0, v@.len() as int) =~= v@);
    }
    r
}

/// Copies an extractor description.
pub fn copy_extractor(e: &Extractor) -> (r: Extractor)
    ensures
        r@ == e@,
{
    let utility = match &e.utility {
        ExtractorType::External(s) => ExtractorType::External(s.clone()),
        ExtractorType::Internal(s) => ExtractorType::Internal(s.clone()),
        ExtractorType::NoExtractor => ExtractorType::NoExtractor,
    };
    let r = Extractor {
        utility,
        extension: e.extension.clone(),
        arguments: copy_strings(&e.arguments),
        exit_codes: copy_codes(&e.exit_codes),
        do_not_recurse: e.do_not_recurse,
    };
    proof {
        assert(r@ =~~= e@);
    }
    r
}

/// Builds the scan result for a match of `sig` at `off`, clamping the
/// recorded size to the end of the buffer.
fn make_result(sig: &Signature, data: &[u8], off: usize) -> (r: SignatureResult)
    requires
        sig_matches_at(sig@, data@, off as int),
    ensures
        r@ == result_of(sig@, data@, off as int),
{
    let rem = data.len() - off;
    let size: usize = match sig.size_rule {
        SizeRule::Fixed(n) => if n <= rem {
            n
        } else {
            rem
        },
        SizeRule::Rest => rem,
        SizeRule::LenLe32 { at, add } => {
            if at <= rem && rem - at >= 4 {
                let p = off + at;
                let val: u128 = (data[p] as u128) + (data[p + 1] as u128) * 0x100 + (data[p
                    + 2] as u128) * 0x10000 + (data[p + 3] as u128) * 0x1000000;
                let nominal: u128 = val + (add as u128);
                if nominal <= rem as u128 {
                    nominal as usize
                } else {
                    rem
                }
            } else {
                let m = sig.magic.len();
                if m <= rem {
                    m
                } else {
                    rem
                }
            }
        },
    };
    let declined = match &sig.extractor {
        None => true,
        Some(e) => match &e.utility {
            ExtractorType::NoExtractor => true,
            _ => false,
        },
    };
    let preferred = if declined {
        None
    } else {
        match &sig.extractor {
            Some(e) => Some(copy_extractor(e)),
            None => None,
        }
    };
    let r = SignatureResult {
        offset: off,
        id: sig.id.clone(),
        size,
        name: sig.name.clone(),
        confidence: sig.confidence,
        description: sig.description.clone(),
        always_display: sig.always_display,
        extraction_declined: declined,
        preferred_extractor: preferred,
    };
    proof {
        assert(r@ =~~= result_of(sig@, data@, off as int));
    }
    r
}

/// `name` occurs in `names`.
fn name_in_list(names: &Vec<String>, name: &String) -> (r: bool)
    ensures
        r == name_listed(names@.map_values(|s: String| s@), name@),
{
    let mut i: usize = 0;
    while i < names.len()
        invariant
            0 <= i <= names@.len(),
            forall|k: int| 0 <= k < i ==> names@[k]@ != name@,
        decreases names@.len() - i,
    {
        if names[i].eq(name) {
            proof {
                assert(names@.map_values(|s: String| s@)[i as int] == name@);
            }
            return true;
        }
        i += 1;
    }
    proof {
        let mapped = names@.map_values(|s: String| s@);
        assert forall|k: int| 0 <= k < mapped.len() implies mapped[k] != name@ by {
            assert(mapped[k] == names@[k]@);
        }
    }
    false
}

/// Whether the configured filters enable `sig`.
fn filters_enable(
    only: &Option<Vec<String>>,
    exclude: &Option<Vec<String>>,
    sig: &Signature,
) -> (r: bool)
    ensures
        r == sig_enabled(
            ScanConfigV { only: names_view(*only), exclude: names_view(*exclude), search_all: false },
            sig@,
        ),
        r == sig_enabled(
            ScanConfigV { only: names_view(*only), exclude: names_view(*exclude), search_all: true },
            sig@,
        ),
{
    let inc_ok = match only {
        Some(v) => name_in_list(v, &sig.name),
        None => true,
    };
    let exc_ok = match exclude {
        Some(v) => !name_in_list(v, &sig.name),
        None => true,
    };
    inc_ok && exc_ok
}

/// Scans `data` against the enabled entries of `table`.
///
/// Returns exactly [`spec_scan`]: every offset of the buffer is tested
/// against every enabled signature; per offset, all matches are kept in
/// `search_all` mode and only the first highest-confidence match otherwise.
pub fn scan_table(
    table: &Vec<Signature>,
    only: &Option<Vec<String>>,
    exclude: &Option<Vec<String>>,
    search_all: bool,
    data: &[u8],
) -> (res: Vec<SignatureResult>)
    ensures
        result_views(res@) == spec_scan(
            ScanConfigV {
                only: names_view(*only),
                exclude: names_view(*exclude),
                search_all: search_all,
            },
            sig_views(table@),
            data@,
        ),
{
    let ghost cfg = ScanConfigV {
        only: names_view(*only),
        exclude: names_view(*exclude),
        search_all: search_all,
    };
    let ghost t = sig_views(table@);
    let mut res: Vec<SignatureResult> = Vec::new();
    let mut next_valid: usize = 0;
    let mut off: usize = 0;
    while off < data.len()
        invariant
            0 <= off <= data@.len(),
            cfg.search_all == search_all,
            cfg.only == names_view(*only),
            cfg.exclude == names_view(*exclude),
            t == sig_views(table@),
            result_views(res@) == scan_upto(cfg, t, data@, off as int),
            next_valid as int == nv_upto(cfg, t, data@, off as int),
        decreases data@.len() - off,
    {
        if search_all {
            let mut k: usize = 0;
            while k < table.len()
                invariant
                    0 <= k <= table@.len(),
                    0 <= off < data@.len(),
                    cfg.search_all == search_all,
                    search_all,
                    cfg.only == names_view(*only),
                    cfg.exclude == names_view(*exclude),
                    t == sig_views(table@),
                    result_views(res@) == scan_upto(cfg, t, data@, off as int) + matches_upto(
                        cfg,
                        t,
                        data@,
                        off as int,
                        k as int,
                    ),
                decreases table@.len() - k,
            {
                let sig = &table[k];
                proof {
                    assert(t[k as int] == sig@);
                }
                if filters_enable(only, exclude, sig) && magic_matches(sig, data, off) {
                    let ghost res0 = res@;
                    let r = make_result(sig, data, off);
                    res.push(r);
                    proof {
                        lemma_result_views_push(res0, r);
                        assert(sig_enabled(cfg, t[k as int]) && sig_matches_at(
                            t[k as int],
                            data@,
                            off as int,
                        ));
                        assert(matches_upto(cfg, t, data@, off as int, k + 1) == matches_upto(
                            cfg,
                            t,
                            data@,
                            off as int,
                            k as int,
                        ) + seq![result_of(t[k as int], data@, off as int)]);
                        assert(result_views(res@) =~= scan_upto(cfg, t, data@, off as int)
                            + matches_upto(cfg, t, data@, off as int, k + 1));
                    }
                } else {
                    proof {
                        assert(matches_upto(cfg, t, data@, off as int, k + 1) =~= matches_upto(
                            cfg,
                            t,
                            data@,
                            off as int,
                            k as int,
                        ));
                    }
                }
                k += 1;
            }
            proof {
                assert(scan_upto(cfg, t, data@, off + 1) == scan_upto(cfg, t, data@, off as int)
                    + offset_results(cfg, t, data@, off as int, nv_upto(
                    cfg,
                    t,
                    data@,
                    off as int,
                )));
                assert(offset_results(cfg, t, data@, off as int, next_valid as int)
                    == matches_upto(cfg, t, data@, off as int, t.len() as int));
                assert(result_views(res@) =~= scan_upto(cfg, t, data@, off + 1));
                assert(nv_upto(cfg, t, data@, off + 1) == next_valid as int);
            }
        } else {
            let mut best: usize = 0;
            let mut found = false;
            let mut k: usize = 0;
            while k < table.len()
                invariant
                    0 <= k <= table@.len(),
                    0 <= off < data@.len(),
                    cfg.search_all == search_all,
                    !search_all,
                    cfg.only == names_view(*only),
                    cfg.exclude == names_view(*exclude),
                    t == sig_views(table@),
                    !found ==> best_idx(cfg, t, data@, off as int, next_valid as int, k as int)
                        == -1,
                    found ==> best_idx(cfg, t, data@, off as int, next_valid as int, k as int)
                        == best as int && best < k,
                decreases table@.len() - k,
            {
                let sig = &table[k];
                proof {
                    assert(t[k as int] == sig@);
                }
                if filters_enable(only, exclude, sig) && magic_matches(sig, data, off) && (off
                    >= next_valid || sig.always_display) {
                    proof {
                        assert(candidate_ok(t[k as int], off as int, next_valid as int));
                    }
                    if !found {
                        best = k;
                        found = true;
                    } else {
                        proof {
                            assert(t[best as int] == sig_views(table@)[best as int]);
                        }
                        if sig.confidence > table[best].confidence {
                            best = k;
                        }
                    }
                }
                k += 1;
            }
            proof {
                assert(best_idx(cfg, t, data@, off as int, next_valid as int, t.len() as int)
                    == if found {
                    best as int
                } else {
                    -1
                });
            }
            if found {
                let sig = &table[best];
                proof {
                    assert(t[best as int] == sig@);
                    lemma_best_idx_props(cfg, t, data@, off as int, next_valid as int,
                        t.len() as int);
                    lemma_result_bounds(t[best as int], data@, off as int);
                }
                let ghost res0 = res@;
                let r = make_result(sig, data, off);
                let accepted_size = r.size;
                let accepted_ad = r.always_display;
                res.push(r);
                proof {
                    lemma_result_views_push(res0, r);
                    assert(scan_upto(cfg, t, data@, off + 1) == scan_upto(
                        cfg,
                        t,
                        data@,
                        off as int,
                    ) + offset_results(cfg, t, data@, off as int, nv_upto(
                        cfg,
                        t,
                        data@,
                        off as int,
                    )));
                    assert(offset_results(cfg, t, data@, off as int, next_valid as int) == seq![
                        result_of(t[best as int], data@, off as int),
                    ]);
                    assert(result_views(res@) =~= scan_upto(cfg, t, data@, off + 1));
                    assert(off + accepted_size <= data@.len());
                }
                if !accepted_ad {
                    let end = off + accepted_size;
                    if end > next_valid {
                        next_valid = end;
                    }
                }
                proof {
                    assert(nv_upto(cfg, t, data@, off + 1) == next_valid as int);
                }
            } else {
                proof {
                    assert(scan_upto(cfg, t, data@, off + 1) == scan_upto(
                        cfg,
                        t,
                        data@,
                        off as int,
                    ) + offset_results(cfg, t, data@, off as int, nv_upto(
                        cfg,
                        t,
                        data@,
                        off as int,
                    )));
                    assert(offset_results(cfg, t, data@, off as int, next_valid as int) =~= Seq::<
                        SignatureResultV,
                    >::empty());
                    assert(result_views(res@) =~= scan_upto(cfg, t, data@, off + 1));
                    assert(nv_upto(cfg, t, data@, off + 1) == next_valid as int);
                }
            }
        }
        off += 1;
    }
    res
}

} // verus!
