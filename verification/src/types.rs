//! The engine's data model: extractors, signature table entries, per-match
//! scan results, per-extraction results, and their mathematical views.

use vstd::prelude::*;

verus! {

/// The failures a boundary call can report.
///
/// `InvalidInput` and `ConfigurationError` abort a call immediately; a failed
/// extraction is recorded per match and never aborts sibling work;
/// `RecursionLimitExceeded` reports that the recursion guard tripped.
#[derive(Clone, Copy, PartialEq, Eq, Structural, Debug)]
pub enum EngineError {
    InvalidInput,
    ConfigurationError,
    RecursionLimitExceeded,
}

impl EngineError {
    /// A non-empty human-readable description of the failure.
    pub fn message(&self) -> (r: String)
        ensures
            r@.len() > 0,
            *self == EngineError::InvalidInput ==> r@ == "invalid input: empty buffer"@,
            *self == EngineError::ConfigurationError ==> r@
                == "configuration error: unknown signature name in filter"@,
            *self == EngineError::RecursionLimitExceeded ==> r@ == "recursion limit exceeded"@,
    {
        proof {
            reveal_strlit("invalid input: empty buffer");
            reveal_strlit("configuration error: unknown signature name in filter");
            reveal_strlit("recursion limit exceeded");
        }
        match self {
            EngineError::InvalidInput => String::from_str("invalid input: empty buffer"),
            EngineError::ConfigurationError => String::from_str(
                "configuration error: unknown signature name in filter",
            ),
            EngineError::RecursionLimitExceeded => String::from_str("recursion limit exceeded"),
        }
    }
}

/// How extraction for a matched signature is performed.
#[derive(Clone, Debug)]
pub enum ExtractorType {
    /// An external command-line utility, named by its command.
    External(String),
    /// A built-in extraction routine, named by its identifier.
    Internal(String),
    /// No extraction routine is associated.
    NoExtractor,
}

/// Mathematical view of [`ExtractorType`].
#[verifier::ext_equal]
pub enum ExtractorTypeV {
    External(Seq<char>),
    Internal(Seq<char>),
    NoExtractor,
}

impl View for ExtractorType {
    type V = ExtractorTypeV;

    open spec fn view(&self) -> ExtractorTypeV {
        match self {
            ExtractorType::External(s) => ExtractorTypeV::External(s@),
            ExtractorType::Internal(s) => ExtractorTypeV::Internal(s@),
            ExtractorType::NoExtractor => ExtractorTypeV::NoExtractor,
        }
    }
}

impl ExtractorTypeV {
    /// The classification string the boundary reports for this variant.
    pub open spec fn kind_name(self) -> Seq<char> {
        match self {
            ExtractorTypeV::External(_) => "external"@,
            ExtractorTypeV::Internal(_) => "internal"@,
            ExtractorTypeV::NoExtractor => "none"@,
        }
    }

    /// The identifier carried by this variant, if any.
    pub open spec fn value_name(self) -> Option<Seq<char>> {
        match self {
            ExtractorTypeV::External(s) => Some(s),
            ExtractorTypeV::Internal(s) => Some(s),
            ExtractorTypeV::NoExtractor => None,
        }
    }
}

impl ExtractorType {
    /// The kind of this extractor: `"external"`, `"internal"` or `"none"`.
    pub fn kind(&self) -> (r: String)
        ensures
            r@ == self@.kind_name(),
    {
        match self {
            ExtractorType::External(_) => String::from_str("external"),
            ExtractorType::Internal(_) => String::from_str("internal"),
            ExtractorType::NoExtractor => String::from_str("none"),
        }
    }

    /// The command or routine identifier, `None` when no extractor is set.
    pub fn value(&self) -> (r: Option<String>)
        ensures
            (r matches Some(s) ==> self@.value_name() == Some(s@)),
            (r is None <==> self@.value_name() is None),
    {
        match self {
            ExtractorType::External(s) => Some(s.clone()),
            ExtractorType::Internal(s) => Some(s.clone()),
            ExtractorType::NoExtractor => None,
        }
    }
}

/// How to invoke extraction for a matched signature.
#[derive(Clone, Debug)]
pub struct Extractor {
    pub utility: ExtractorType,
    pub extension: String,
    pub arguments: Vec<String>,
    pub exit_codes: Vec<i32>,
    pub do_not_recurse: bool,
}

/// Mathematical view of [`Extractor`].
#[verifier::ext_equal]
pub struct ExtractorV {
    pub utility: ExtractorTypeV,
    pub extension: Seq<char>,
    pub arguments: Seq<Seq<char>>,
    pub exit_codes: Seq<i32>,
    pub do_not_recurse: bool,
}

impl View for Extractor {
    type V = ExtractorV;

    open spec fn view(&self) -> ExtractorV {
        ExtractorV {
            utility: self.utility@,
            extension: self.extension@,
            arguments: self.arguments@.map_values(|s: String| s@),
            exit_codes: self.exit_codes@,
            do_not_recurse: self.do_not_recurse,
        }
    }
}

/// One signature match found in a scanned buffer.
#[derive(Clone, Debug)]
pub struct SignatureResult {
    pub offset: usize,
    pub id: String,
    pub size: usize,
    pub name: String,
    pub confidence: u8,
    pub description: String,
    pub always_display: bool,
    pub extraction_declined: bool,
    pub preferred_extractor: Option<Extractor>,
}

/// Mathematical view of [`SignatureResult`].
#[verifier::ext_equal]
pub struct SignatureResultV {
    pub offset: int,
    pub id: Seq<char>,
    pub size: int,
    pub name: Seq<char>,
    pub confidence: u8,
    pub description: Seq<char>,
    pub always_display: bool,
    pub extraction_declined: bool,
    pub preferred_extractor: Option<ExtractorV>,
}

impl View for SignatureResult {
    type V = SignatureResultV;

    open spec fn view(&self) -> SignatureResultV {
        SignatureResultV {
            offset: self.offset as int,
            id: self.id@,
            size: self.size as int,
            name: self.name@,
            confidence: self.confidence,
            description: self.description@,
            always_display: self.always_display,
            extraction_declined: self.extraction_declined,
            preferred_extractor: match &self.preferred_extractor {
                Some(e) => Some(e@),
                None => None,
            },
        }
    }
}

/// The outcome of one attempted extraction.
#[derive(Clone, Debug)]
pub struct ExtractionResult {
    pub size: Option<usize>,
    pub success: bool,
    pub extractor: String,
    pub do_not_recurse: bool,
    pub output_directory: String,
}

/// Mathematical view of [`ExtractionResult`].
#[verifier::ext_equal]
pub struct ExtractionResultV {
    pub size: Option<int>,
    pub success: bool,
    pub extractor: Seq<char>,
    pub do_not_recurse: bool,
    pub output_directory: Seq<char>,
}

impl View for ExtractionResult {
    type V = ExtractionResultV;

    open spec fn view(&self) -> ExtractionResultV {
        ExtractionResultV {
            size: match self.size {
                Some(n) => Some(n as int),
                None => None,
            },
            success: self.success,
            extractor: self.extractor@,
            do_not_recurse: self.do_not_recurse,
            output_directory: self.output_directory@,
        }
    }
}

/// How the recorded `size` of a match is computed from the buffer.
#[derive(Clone, Copy, Debug, PartialEq, Eq, Structural)]
pub enum SizeRule {
    /// A fixed number of bytes, clamped to the end of the buffer.
    Fixed(usize),
    /// Everything from the match offset to the end of the buffer.
    Rest,
    /// A 32-bit little-endian length field read `at` bytes past the match
    /// offset, plus `add` bytes of framing, clamped to the end of the buffer.
    LenLe32 { at: usize, add: usize },
}

/// One entry of the signature table.
#[derive(Clone, Debug)]
pub struct Signature {
    pub id: String,
    pub name: String,
    pub magic: Vec<u8>,
    pub confidence: u8,
    pub description: String,
    pub short: bool,
    pub always_display: bool,
    pub size_rule: SizeRule,
    pub extractor: Option<Extractor>,
}

/// Mathematical view of [`Signature`].
#[verifier::ext_equal]
pub struct SignatureV {
    pub id: Seq<char>,
    pub name: Seq<char>,
    pub magic: Seq<u8>,
    pub confidence: u8,
    pub description: Seq<char>,
    pub short: bool,
    pub always_display: bool,
    pub size_rule: SizeRule,
    pub extractor: Option<ExtractorV>,
}

impl View for Signature {
    type V = SignatureV;

    open spec fn view(&self) -> SignatureV {
        SignatureV {
            id: self.id@,
            name: self.name@,
            magic: self.magic@,
            confidence: self.confidence,
            description: self.description@,
            short: self.short,
            always_display: self.always_display,
            size_rule: self.size_rule,
            extractor: match &self.extractor {
                Some(e) => Some(e@),
                None => None,
            },
        }
    }
}

/// One entry of the signature listing the boundary reports.
#[derive(Clone, Debug)]
pub struct SignatureInfo {
    pub name: String,
    pub short: bool,
}

/// The results of one scan pass over one buffer: the matches found and the
/// outcome of each attempted extraction, keyed by `offset:id`.
#[derive(Clone, Debug)]
pub struct AnalysisResults {
    pub file_path: String,
    pub file_map: Vec<SignatureResult>,
    pub extractions: Vec<(String, ExtractionResult)>,
}

} // verus!
