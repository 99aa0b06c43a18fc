//! The built-in signature table.
//!
//! The table is loaded once at engine construction. Its entries are kept
//! strictly sorted by name and by id, which makes both pairwise distinct, so
//! a scan can never report two matches with the same `(offset, id)` pair and
//! the signature listing never repeats a name.

use vstd::prelude::*;

use crate::order::{lemma_adjacent_sorted, lemma_sorted_distinct, lex_lt, strictly_sorted};
use crate::types::{Extractor, ExtractorType, Signature, SignatureV, SizeRule};

verus! {

/// The names of the entries of `t`, in table order.
pub open spec fn table_names(t: Seq<SignatureV>) -> Seq<Seq<char>> {
    t.map_values(|s: SignatureV| s.name)
}

/// The ids of the entries of `t`, in table order.
pub open spec fn table_ids(t: Seq<SignatureV>) -> Seq<Seq<char>> {
    t.map_values(|s: SignatureV| s.id)
}

/// Well-formedness of a signature table: every magic pattern is non-empty and
/// the entries are strictly sorted by name and by id.
pub open spec fn table_wf(t: Seq<SignatureV>) -> bool {
    &&& forall|i: int| 0 <= i < t.len() ==> (#[trigger] t[i]).magic.len() > 0
    &&& strictly_sorted(table_names(t))
    &&& strictly_sorted(table_ids(t))
}

/// A well-formed table has pairwise-distinct names and ids.
pub proof fn lemma_table_distinct(t: Seq<SignatureV>)
    requires
        table_wf(t),
    ensures
        forall|i: int, j: int|
            0 <= i < t.len() && 0 <= j < t.len() && i != j
                ==> (#[trigger] t[i]).name != (#[trigger] t[j]).name && t[i].id != t[j].id,
{
    lemma_sorted_distinct(table_names(t));
    lemma_sorted_distinct(table_ids(t));
    assert forall|i: int, j: int|
        0 <= i < t.len() && 0 <= j < t.len() && i != j
            implies (#[trigger] t[i]).name != (#[trigger] t[j]).name && t[i].id != t[j].id by {
        assert(table_names(t)[i] == t[i].name);
        assert(table_names(t)[j] == t[j].name);
        assert(table_ids(t)[i] == t[i].id);
        assert(table_ids(t)[j] == t[j].id);
    }
}

pub open spec fn sig_bzip2() -> SignatureV {
    SignatureV {
        id: "bz1"@,
        name: "bzip2"@,
        magic: seq![0x42u8, 0x5au8, 0x68u8],
        confidence: 100,
        description: "bzip2 compressed data"@,
        short: true,
        always_display: false,
        size_rule: SizeRule::Rest,
        extractor: None,
    }
}

pub open spec fn sig_deflate() -> SignatureV {
    SignatureV {
        id: "df1"@,
        name: "deflate"@,
        magic: seq![0x1fu8, 0x8bu8],
        confidence: 90,
        description: "raw deflate stream marker"@,
        short: true,
        always_display: false,
        size_rule: SizeRule::Rest,
        extractor: None,
    }
}

pub open spec fn sig_elf() -> SignatureV {
    SignatureV {
        id: "el1"@,
        name: "elf"@,
        magic: seq![0x7fu8, 0x45u8, 0x4cu8, 0x46u8],
        confidence: 250,
        description: "ELF binary"@,
        short: false,
        always_display: true,
        size_rule: SizeRule::Rest,
        extractor: Some(
            crate::types::ExtractorV {
                utility: crate::types::ExtractorTypeV::NoExtractor,
                extension: ""@,
                arguments: Seq::empty(),
                exit_codes: Seq::empty(),
                do_not_recurse: false,
            },
        ),
    }
}

pub open spec fn sig_gzip() -> SignatureV {
    SignatureV {
        id: "gz1"@,
        name: "gzip"@,
        magic: seq![0x1fu8, 0x8bu8, 0x08u8],
        confidence: 200,
        description: "gzip compressed data"@,
        short: false,
        always_display: false,
        size_rule: SizeRule::Rest,
        extractor: Some(
            crate::types::ExtractorV {
                utility: crate::types::ExtractorTypeV::Internal("carve"@),
                extension: "gz"@,
                arguments: Seq::empty(),
                exit_codes: Seq::empty(),
                do_not_recurse: false,
            },
        ),
    }
}

pub open spec fn sig_pdf() -> SignatureV {
    SignatureV {
        id: "pd1"@,
        name: "pdf"@,
        magic: seq![0x25u8, 0x50u8, 0x44u8, 0x46u8],
        confidence: 150,
        description: "PDF document"@,
        short: false,
        always_display: false,
        size_rule: SizeRule::Rest,
        extractor: Some(
            crate::types::ExtractorV {
                utility: crate::types::ExtractorTypeV::Internal("carve"@),
                extension: "pdf"@,
                arguments: Seq::empty(),
                exit_codes: Seq::empty(),
                do_not_recurse: true,
            },
        ),
    }
}

pub open spec fn sig_riff() -> SignatureV {
    SignatureV {
        id: "rf1"@,
        name: "riff"@,
        magic: seq![0x52u8, 0x49u8, 0x46u8, 0x46u8],
        confidence: 180,
        description: "RIFF container"@,
        short: false,
        always_display: false,
        size_rule: SizeRule::LenLe32 { at: 4, add: 8 },
        extractor: Some(
            crate::types::ExtractorV {
                utility: crate::types::ExtractorTypeV::Internal("strip"@),
                extension: "bin"@,
                arguments: Seq::empty(),
                exit_codes: Seq::empty(),
                do_not_recurse: false,
            },
        ),
    }
}

pub open spec fn sig_zip() -> SignatureV {
    SignatureV {
        id: "zp1"@,
        name: "zip"@,
        magic: seq![0x50u8, 0x4bu8, 0x03u8, 0x04u8],
        confidence: 190,
        description: "ZIP archive"@,
        short: false,
        always_display: false,
        size_rule: SizeRule::Rest,
        extractor: Some(
            crate::types::ExtractorV {
                utility: crate::types::ExtractorTypeV::External("unzip"@),
                extension: "zip"@,
                arguments: seq!["-o"@],
                exit_codes: seq![0i32, 1i32],
                do_not_recurse: false,
            },
        ),
    }
}

/// The view of the built-in table, in name order.
pub open spec fn spec_default_table() -> Seq<SignatureV> {
    seq![
        sig_bzip2(),
        sig_deflate(),
        sig_elf(),
        sig_gzip(),
        sig_pdf(),
        sig_riff(),
        sig_zip(),
    ]
}

/// The built-in table is well-formed.
pub proof fn lemma_default_table_wf()
    ensures
        table_wf(spec_default_table()),
{
    reveal_strlit("bzip2");
    reveal_strlit("deflate");
    reveal_strlit("elf");
    reveal_strlit("gzip");
    reveal_strlit("pdf");
    reveal_strlit("riff");
    reveal_strlit("zip");
    reveal_strlit("bz1");
    reveal_strlit("df1");
    reveal_strlit("el1");
    reveal_strlit("gz1");
    reveal_strlit("pd1");
    reveal_strlit("rf1");
    reveal_strlit("zp1");
    let t = spec_default_table();
    let names = table_names(t);
    assert forall|k: int| 0 <= k < names.len() - 1 implies #[trigger] lex_lt(
        names[k],
        names[k + 1],
    ) by {
        assert(names[k] == t[k].name);
        assert(names[k + 1] == t[k + 1].name);
    }
    lemma_adjacent_sorted(names);
    let ids = table_ids(t);
    assert forall|k: int| 0 <= k < ids.len() - 1 implies #[trigger] lex_lt(
        ids[k],
        ids[k + 1],
    ) by {
        assert(ids[k] == t[k].id);
        assert(ids[k + 1] == t[k + 1].id);
    }
    lemma_adjacent_sorted(ids);
}

fn no_extraction() -> (r: Extractor)
    ensures
        r@ == (crate::types::ExtractorV {
            utility: crate::types::ExtractorTypeV::NoExtractor,
            extension: ""@,
            arguments: Seq::<Seq<char>>::empty(),
            exit_codes: Seq::<i32>::empty(),
            do_not_recurse: false,
        }),
{
    let r = Extractor {
        utility: ExtractorType::NoExtractor,
        extension: String::from_str(""),
        arguments: Vec::new(),
        exit_codes: Vec::new(),
        do_not_recurse: false,
    };
    proof {
        assert(r@.arguments =~= Seq::<Seq<char>>::empty());
    }
    r
}

fn internal_extractor(routine: &str, extension: &str, do_not_recurse: bool) -> (r: Extractor)
    ensures
        r@ == (crate::types::ExtractorV {
            utility: crate::types::ExtractorTypeV::Internal(routine@),
            extension: extension@,
            arguments: Seq::<Seq<char>>::empty(),
            exit_codes: Seq::<i32>::empty(),
            do_not_recurse: do_not_recurse,
        }),
{
    let r = Extractor {
        utility: ExtractorType::Internal(String::from_str(routine)),
        extension: String::from_str(extension),
        arguments: Vec::new(),
        exit_codes: Vec::new(),
        do_not_recurse,
    };
    proof {
        assert(r@.arguments =~= Seq::<Seq<char>>::empty());
    }
    r
}

/// Builds the built-in signature table; its view is [`spec_default_table`].
pub fn default_signatures() -> (v: Vec<Signature>)
    ensures
        v@.map_values(|s: Signature| s@) == spec_default_table(),
        v@.len() == 7,
{
    let mut v: Vec<Signature> = Vec::new();
    v.push(Signature {
        id: String::from_str("bz1"),
        name: String::from_str("bzip2"),
        magic: vec![0x42u8, 0x5au8, 0x68u8],
        confidence: 100,
        description: String::from_str("bzip2 compressed data"),
        short: true,
        always_display: false,
        size_rule: SizeRule::Rest,
        extractor: None,
    });
    v.push(Signature {
        id: String::from_str("df1"),
        name: String::from_str("deflate"),
        magic: vec![0x1fu8, 0x8bu8],
        confidence: 90,
        description: String::from_str("raw deflate stream marker"),
        short: true,
        always_display: false,
        size_rule: SizeRule::Rest,
        extractor: None,
    });
    v.push(Signature {
        id: String::from_str("el1"),
        name: String::from_str("elf"),
        magic: vec![0x7fu8, 0x45u8, 0x4cu8, 0x46u8],
        confidence: 250,
        description: String::from_str("ELF binary"),
        short: false,
        always_display: true,
        size_rule: SizeRule::Rest,
        extractor: Some(no_extraction()),
    });
    v.push(Signature {
        id: String::from_str("gz1"),
        name: String::from_str("gzip"),
        magic: vec![0x1fu8, 0x8bu8, 0x08u8],
        confidence: 200,
        description: String::from_str("gzip compressed data"),
        short: false,
        always_display: false,
        size_rule: SizeRule::Rest,
        extractor: Some(internal_extractor("carve", "gz", false)),
    });
    v.push(Signature {
        id: String::from_str("pd1"),
        name: String::from_str("pdf"),
        magic: vec![0x25u8, 0x50u8, 0x44u8, 0x46u8],
        confidence: 150,
        description: String::from_str("PDF document"),
        short: false,
        always_display: false,
        size_rule: SizeRule::Rest,
        extractor: Some(internal_extractor("carve", "pdf", true)),
    });
    v.push(Signature {
        id: String::from_str("rf1"),
        name: String::from_str("riff"),
        magic: vec![0x52u8, 0x49u8, 0x46u8, 0x46u8],
        confidence: 180,
        description: String::from_str("RIFF container"),
        short: false,
        always_display: false,
        size_rule: SizeRule::LenLe32 { at: 4, add: 8 },
        extractor: Some(internal_extractor("strip", "bin", false)),
    });
    let mut zip_args: Vec<String> = Vec::new();
    zip_args.push(String::from_str("-o"));
    let mut zip_codes: Vec<i32> = Vec::new();
    zip_codes.push(0);
    zip_codes.push(1);
    v.push(Signature {
        id: String::from_str("zp1"),
        name: String::from_str("zip"),
        magic: vec![0x50u8, 0x4bu8, 0x03u8, 0x04u8],
        confidence: 190,
        description: String::from_str("ZIP archive"),
        short: false,
        always_display: false,
        size_rule: SizeRule::Rest,
        extractor: Some(Extractor {
            utility: ExtractorType::External(String::from_str("unzip")),
            extension: String::from_str("zip"),
            arguments: zip_args,
            exit_codes: zip_codes,
            do_not_recurse: false,
        }),
    });
    proof {
        assert(v@.map_values(|s: Signature| s@) =~~= spec_default_table());
    }
    v
}

} // verus!
