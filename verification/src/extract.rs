//! Extractor dispatch: runs the built-in extraction routines over the byte
//! ranges of a list of matches.
//!
//! Every match of the list is represented in the output, keyed by
//! `<offset>-<id>` so that entries for different matches never collide, and
//! a failed or declined extraction is recorded rather than dropped: one
//! failure never aborts the extraction of sibling matches. Byte ranges are
//! clamped to the buffer before they are read. The library never launches
//! an external command itself: for a match that asks for one,
//! [`external_job`] hands the caller the carved range and the command, the
//! caller runs it, and [`record_external_result`] fixes the recorded
//! outcome from the exit code.

use vstd::prelude::*;

use crate::types::{ExtractionResult, ExtractionResultV, Extractor, ExtractorType,
    SignatureResult, SignatureResultV};

verus! {

/// The decimal digit `d` as a character.
pub open spec fn digit_char(d: int) -> char {
    if d == 0 {
        '0'
    } else if d == 1 {
        '1'
    } else if d == 2 {
        '2'
    } else if d == 3 {
        '3'
    } else if d == 4 {
        '4'
    } else if d == 5 {
        '5'
    } else if d == 6 {
        '6'
    } else if d == 7 {
        '7'
    } else if d == 8 {
        '8'
    } else {
        '9'
    }
}

/// The decimal rendering of `n`, most significant digit first.
pub open spec fn spec_decimal(n: int) -> Seq<char>
    decreases n,
{
    if n <= 9 {
        seq![digit_char(if n < 0 { 0 } else { n })]
    } else {
        spec_decimal(n / 10).push(digit_char(n % 10))
    }
}

/// Renders `n` in decimal.
pub fn decimal_string(n: usize) -> (r: String)
    ensures
        r@ == spec_decimal(n as int),
    decreases n,
{
    proof {
        reveal_strlit("0");
        reveal_strlit("1");
        reveal_strlit("2");
        reveal_strlit("3");
        reveal_strlit("4");
        reveal_strlit("5");
        reveal_strlit("6");
        reveal_strlit("7");
        reveal_strlit("8");
        reveal_strlit("9");
    }
    let d = n % 10;
    let digit: &str = match d {
        0 => "0",
        1 => "1",
        2 => "2",
        3 => "3",
        4 => "4",
        5 => "5",
        6 => "6",
        7 => "7",
        8 => "8",
        _ => "9",
    };
    proof {
        assert(digit@ =~= seq![digit_char(n as int % 10)]);
    }
    if n <= 9 {
        let r = String::from_str(digit);
        proof {
            assert(r@ =~= spec_decimal(n as int));
        }
        r
    } else {
        let mut r = decimal_string(n / 10);
        r.append(digit);
        proof {
            assert(r@ =~= spec_decimal(n as int));
        }
        r
    }
}

/// The key under which a match's extraction is recorded: `<offset>-<id>`.
pub open spec fn key_of(r: SignatureResultV) -> Seq<char> {
    spec_decimal(r.offset) + "-"@ + r.id
}

/// Renders the extraction key of a match.
pub fn match_key(r: &SignatureResult) -> (k: String)
    ensures
        k@ == key_of(r@),
{
    let mut k = decimal_string(r.offset);
    k.append("-");
    k.append(r.id.as_str());
    k
}

/// The byte range `[off, off + size)` of `data`, clamped to the buffer.
pub open spec fn region_of(data: Seq<u8>, off: int, size: int) -> Seq<u8>
    recommends
        0 <= off,
        0 <= size,
{
    let start = if off <= data.len() {
        off
    } else {
        data.len() as int
    };
    let end = if off + size <= data.len() {
        off + size
    } else {
        data.len() as int
    };
    data.subrange(start, end)
}

/// Copies the clamped byte range `[off, off + size)` out of `data`.
fn copy_region(data: &[u8], off: usize, size: usize) -> (v: Vec<u8>)
    ensures
        v@ == region_of(data@, off as int, size as int),
{
    let dlen = data.len();
    let start = if off <= dlen {
        off
    } else {
        dlen
    };
    let end = if size <= dlen - start && start + size <= dlen {
        start + size
    } else {
        dlen
    };
    proof {
        assert(end as int == (if off + size <= data@.len() {
            off + size
        } else {
            data@.len() as int
        }));
    }
    let mut v: Vec<u8> = Vec::new();
    let mut i = start;
    while i < end
        invariant
            start <= i <= end,
            end <= data@.len(),
            v@ == data@.subrange(start as int, i as int),
        decreases end - i,
    {
        v.push(data[i]);
        proof {
            assert(v@ =~= data@.subrange(start as int, i + 1));
        }
        i += 1;
    }
    proof {
        assert(v@ =~= region_of(data@, off as int, size as int));
    }
    v
}

/// What the built-in routine named `routine` produces from `region`:
/// `carve` copies the region, `strip` drops the region's first four bytes,
/// and an unknown name fails.
pub open spec fn internal_output(routine: Seq<char>, region: Seq<u8>) -> Option<Seq<u8>> {
    if routine == "carve"@ {
        Some(region)
    } else if routine == "strip"@ {
        Some(
            region.skip(
                if region.len() < 4 {
                    region.len() as int
                } else {
                    4
                },
            ),
        )
    } else {
        None
    }
}

/// Runs the built-in routine named `routine` on `region`.
fn run_internal(routine: &String, region: Vec<u8>) -> (out: Option<Vec<u8>>)
    ensures
        (out matches Some(v) ==> internal_output(routine@, region@) == Some(v@)),
        (out is None <==> internal_output(routine@, region@) is None),
{
    let carve = String::from_str("carve");
    let strip = String::from_str("strip");
    if routine.eq(&carve) {
        Some(region)
    } else if routine.eq(&strip) {
        let cut = if region.len() < 4 {
            region.len()
        } else {
            4
        };
        let mut v: Vec<u8> = Vec::new();
        let mut i = cut;
        while i < region.len()
            invariant
                cut <= i <= region@.len(),
                v@ == region@.subrange(cut as int, i as int),
            decreases region@.len() - i,
        {
            v.push(region[i]);
            proof {
                assert(v@ =~= region@.subrange(cut as int, i + 1));
            }
            i += 1;
        }
        proof {
            assert(v@ =~= region@.skip(cut as int));
        }
        Some(v)
    } else {
        None
    }
}

/// The label under which an extraction is recorded: the command of an
/// external utility, the name of a built-in routine, or `none`.
pub open spec fn extractor_label(e: Option<crate::types::ExtractorV>) -> Seq<char> {
    match e {
        None => "none"@,
        Some(ex) => match ex.utility {
            crate::types::ExtractorTypeV::External(cmd) => cmd,
            crate::types::ExtractorTypeV::Internal(routine) => routine,
            crate::types::ExtractorTypeV::NoExtractor => "none"@,
        },
    }
}

/// The `do_not_recurse` flag recorded for a match's extraction.
pub open spec fn extractor_dnr(e: Option<crate::types::ExtractorV>) -> bool {
    match e {
        None => false,
        Some(ex) => ex.do_not_recurse,
    }
}

/// The bytes extraction produces for the match `r`, if any: only a
/// non-declined built-in routine produces bytes inside the library.
pub open spec fn spec_extract_output(data: Seq<u8>, r: SignatureResultV) -> Option<Seq<u8>> {
    match r.preferred_extractor {
        None => None,
        Some(ex) => if r.extraction_declined {
            None
        } else {
            match ex.utility {
                crate::types::ExtractorTypeV::Internal(routine) => internal_output(
                    routine,
                    region_of(data, r.offset, r.size),
                ),
                _ => None,
            }
        },
    }
}

/// What the in-library extraction pass records for the match `r` of `data`,
/// outputs going under `base`: success exactly when a built-in routine
/// produced bytes; a declined match and an unknown routine are failures. A
/// match wanting an external utility is recorded as not yet extracted here;
/// the caller runs its command via [`external_job`] and supersedes this
/// record with [`record_external_result`].
pub open spec fn spec_extract_one(data: Seq<u8>, base: Seq<char>, r: SignatureResultV)
    -> ExtractionResultV {
    ExtractionResultV {
        size: match spec_extract_output(data, r) {
            Some(out) => Some(out.len() as int),
            None => None,
        },
        success: spec_extract_output(data, r) is Some,
        extractor: extractor_label(r.preferred_extractor),
        do_not_recurse: extractor_dnr(r.preferred_extractor),
        output_directory: base + "/"@ + key_of(r),
    }
}

/// The match asks for an external utility: it carries a non-declined
/// extractor whose routine is an external command.
pub open spec fn wants_external(r: SignatureResultV) -> bool {
    match r.preferred_extractor {
        Some(e) => !r.extraction_declined && e.utility is External,
        None => false,
    }
}

/// The external work a match asks for: the carved byte range, clamped to
/// the buffer, and the external utility to run over it. `Some` exactly when
/// the match wants an external utility. The library never launches the
/// command itself; the caller materializes the range, runs the command, and
/// records the exit-code verdict with [`record_external_result`].
pub fn external_job(data: &[u8], r: &SignatureResult) -> (job: Option<(Vec<u8>, Extractor)>)
    ensures
        job is Some <==> wants_external(r@),
        (job matches Some(p) ==> p.0@ == region_of(data@, r.offset as int, r.size as int)
            && r@.preferred_extractor == Some(p.1@)),
{
    match &r.preferred_extractor {
        Some(ex) => match &ex.utility {
            ExtractorType::External(_) => {
                if r.extraction_declined {
                    None
                } else {
                    let region = copy_region(data, r.offset, r.size);
                    Some((region, crate::matcher::copy_extractor(ex)))
                }
            },
            _ => None,
        },
        None => None,
    }
}

/// What extraction records once the caller has run a match's external
/// utility and obtained its exit code: success exactly when the match
/// wanted an external utility and the code is in its accepted set. The
/// command's output lives where the command wrote it, so no size is
/// recorded.
pub open spec fn spec_external_record(base: Seq<char>, r: SignatureResultV, code: i32)
    -> ExtractionResultV {
    ExtractionResultV {
        size: None,
        success: wants_external(r) && (match r.preferred_extractor {
            Some(e) => e.exit_codes.contains(code),
            None => false,
        }),
        extractor: extractor_label(r.preferred_extractor),
        do_not_recurse: extractor_dnr(r.preferred_extractor),
        output_directory: base + "/"@ + key_of(r),
    }
}

/// Records the outcome of an external extraction from its exit code.
pub fn record_external_result(base: &String, r: &SignatureResult, code: i32) -> (rec:
    ExtractionResult)
    ensures
        rec@ == spec_external_record(base@, r@, code),
{
    let success = match &r.preferred_extractor {
        Some(ex) => match &ex.utility {
            ExtractorType::External(_) => !r.extraction_declined && exit_code_accepted(ex, code),
            _ => false,
        },
        None => false,
    };
    let key = match_key(r);
    let mut outdir = base.clone();
    outdir.append("/");
    outdir.append(key.as_str());
    let label = match &r.preferred_extractor {
        None => String::from_str("none"),
        Some(ex) => match &ex.utility {
            ExtractorType::External(cmd) => cmd.clone(),
            ExtractorType::Internal(routine) => routine.clone(),
            ExtractorType::NoExtractor => String::from_str("none"),
        },
    };
    let dnr = match &r.preferred_extractor {
        None => false,
        Some(ex) => ex.do_not_recurse,
    };
    let rec = ExtractionResult {
        size: None,
        success,
        extractor: label,
        do_not_recurse: dnr,
        output_directory: outdir,
    };
    proof {
        assert(rec@ =~~= spec_external_record(base@, r@, code));
    }
    rec
}

/// Whether an external utility's exit code counts as success: any code not
/// in the extractor's accepted set is a failure, recorded and non-fatal.
pub fn exit_code_accepted(ex: &Extractor, code: i32) -> (r: bool)
    ensures
        r == ex@.exit_codes.contains(code),
{
    let mut i: usize = 0;
    while i < ex.exit_codes.len()
        invariant
            0 <= i <= ex.exit_codes@.len(),
            forall|k: int| 0 <= k < i ==> ex.exit_codes@[k] != code,
        decreases ex.exit_codes@.len() - i,
    {
        if ex.exit_codes[i] == code {
            assert(ex@.exit_codes[i as int] == code);
            return true;
        }
        i += 1;
    }
    proof {
        assert(forall|k: int| 0 <= k < ex@.exit_codes.len() ==> ex@.exit_codes[k] != code);
    }
    false
}

/// Runs extraction for the single match `r`, returning its key, its record
/// and the bytes it produced, if any.
pub fn extract_one(data: &[u8], base: &String, r: &SignatureResult) -> (out: (
    String,
    ExtractionResult,
    Option<Vec<u8>>,
))
    ensures
        out.0@ == key_of(r@),
        out.1@ == spec_extract_one(data@, base@, r@),
        (out.2 matches Some(v) ==> spec_extract_output(data@, r@) == Some(v@)),
        (out.2 is None <==> spec_extract_output(data@, r@) is None),
{
    let key = match_key(r);
    let mut outdir = base.clone();
    outdir.append("/");
    outdir.append(key.as_str());
    let label = match &r.preferred_extractor {
        None => String::from_str("none"),
        Some(ex) => match &ex.utility {
            ExtractorType::External(cmd) => cmd.clone(),
            ExtractorType::Internal(routine) => routine.clone(),
            ExtractorType::NoExtractor => String::from_str("none"),
        },
    };
    let dnr = match &r.preferred_extractor {
        None => false,
        Some(ex) => ex.do_not_recurse,
    };
    let produced: Option<Vec<u8>> = match &r.preferred_extractor {
        None => None,
        Some(ex) => if r.extraction_declined {
            None
        } else {
            match &ex.utility {
                ExtractorType::Internal(routine) => {
                    let region = copy_region(data, r.offset, r.size);
                    run_internal(routine, region)
                },
                _ => None,
            }
        },
    };
    let record = ExtractionResult {
        size: match &produced {
            Some(v) => Some(v.len()),
            None => None,
        },
        success: match &produced {
            Some(_) => true,
            None => false,
        },
        extractor: label,
        do_not_recurse: dnr,
        output_directory: outdir,
    };
    proof {
        assert(record@ =~~= spec_extract_one(data@, base@, r@));
    }
    (key, record, produced)
}

} // verus!
