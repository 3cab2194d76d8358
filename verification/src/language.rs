//! Language-specific normalization and parsing boundaries.
use vstd::prelude::*;

use crate::error::ImeError;
use crate::text::{chars_of, string_from_chars};

verus! {

/// Normalized input that remains independent of a concrete language parser.
#[derive(Clone, Debug, PartialEq, Eq)]
pub struct NormalizedInput {
    code: String,
}

impl View for NormalizedInput {
    type V = Seq<char>;

    closed spec fn view(&self) -> Seq<char> {
        self.code@
    }
}

impl NormalizedInput {
    /// Creates normalized input from an owned code string.
    pub fn new(code: String) -> (r: Self)
        ensures r@ == code@,
    {
        NormalizedInput { code }
    }

    /// Returns the normalized input code.
    pub fn code(&self) -> (r: &str)
        ensures r@ == self@,
    {
        self.code.as_str()
    }
}

/// Minimal parsed representation used by the candidate pipeline.
#[derive(Clone, Debug, PartialEq, Eq)]
pub struct ParsedInput {
    normalized_code: String,
}

impl View for ParsedInput {
    type V = Seq<char>;

    closed spec fn view(&self) -> Seq<char> {
        self.normalized_code@
    }
}

impl ParsedInput {
    /// Creates a parsed input from its normalized code.
    pub fn new(normalized_code: String) -> (r: Self)
        ensures r@ == normalized_code@,
    {
        ParsedInput { normalized_code }
    }

    /// Returns the normalized code used for dictionary lookup.
    pub fn normalized_code(&self) -> (r: &str)
        ensures r@ == self@,
    {
        self.normalized_code.as_str()
    }
}

/// Stable identity used to merge equivalent candidate proposals.
#[derive(Clone, Debug, PartialEq, Eq, PartialOrd, Ord, Hash)]
pub struct CandidateIdentity(String);

impl View for CandidateIdentity {
    type V = Seq<char>;

    closed spec fn view(&self) -> Seq<char> {
        self.0@
    }
}

impl CandidateIdentity {
    /// Creates an identity from a candidate's committed text.
    pub fn from_text(text: &str) -> (r: Self)
        ensures r@ == text@,
    {
        CandidateIdentity(text.to_owned())
    }

    /// Returns the identity text.
    pub fn as_str(&self) -> (r: &str)
        ensures r@ == self@,
    {
        self.0.as_str()
    }
}

/// Minimal language abstraction required by candidate generation.
///
/// An implementation is deterministic: each operation is a function of its input, named by
/// the spec functions below, which every implementation defines and proves its methods
/// against.
pub trait LanguageEngine {
    /// The normalized code of a composition, or `None` where normalization fails.
    spec fn normalized(&self, composition: Seq<char>) -> Option<Seq<char>>;

    /// The parsed code of normalized input, or `None` where parsing fails.
    spec fn parsed(&self, normalized: Seq<char>) -> Option<Seq<char>>;

    /// The merge identity of a candidate text.
    spec fn identity(&self, text: Seq<char>) -> Seq<char>;

    /// Normalizes raw composition without applying language parsing rules.
    fn normalize_input(&self, composition: &str) -> (r: Result<NormalizedInput, ImeError>)
        ensures
            match r {
                Ok(n) => self.normalized(composition@) == Some(n@),
                Err(_) => self.normalized(composition@) is None,
            },
    ;

    /// Parses normalized input into the minimal representation consumed by providers.
    fn parse_input(&self, input: &NormalizedInput) -> (r: Result<ParsedInput, ImeError>)
        ensures
            match r {
                Ok(p) => self.parsed(input@) == Some(p@),
                Err(_) => self.parsed(input@) is None,
            },
    ;

    /// Returns the identity used to merge semantically equivalent candidate proposals.
    fn candidate_identity(&self, candidate_text: &str) -> (r: CandidateIdentity)
        ensures
            r@ == self.identity(candidate_text@),
    ;
}

/// ASCII upper-case letters map to lower case; every other character is kept.
pub open spec fn ascii_lower(c: char) -> char {
    if 'A' <= c && c <= 'Z' {
        ((c as u32) + 32) as char
    } else {
        c
    }
}

/// The reference normalization: ASCII case folding, character by character.
pub open spec fn ascii_lower_text(s: Seq<char>) -> Seq<char> {
    s.map_values(|c: char| ascii_lower(c))
}

/// Small reference implementation used to validate the language boundary.
#[derive(Clone, Copy, Debug, Default)]
pub struct ReferenceLanguageEngine;

fn lower_ascii_char(c: char) -> (r: char)
    ensures r == ascii_lower(c),
{
    if 'A' <= c && c <= 'Z' {
        let b = (c as u8) + 32;
        b as char
    } else {
        c
    }
}

impl LanguageEngine for ReferenceLanguageEngine {
    open spec fn normalized(&self, composition: Seq<char>) -> Option<Seq<char>> {
        Some(ascii_lower_text(composition))
    }

    open spec fn parsed(&self, normalized: Seq<char>) -> Option<Seq<char>> {
        Some(normalized)
    }

    open spec fn identity(&self, text: Seq<char>) -> Seq<char> {
        text
    }

    fn normalize_input(&self, composition: &str) -> (r: Result<NormalizedInput, ImeError>)
        ensures
            r matches Ok(n) && n@ == ascii_lower_text(composition@),
    {
        let cs = chars_of(composition);
        let mut out: Vec<char> = Vec::new();
        let mut i: usize = 0;
        while i < cs.len()
            invariant
                i <= cs@.len(),
                cs@ == composition@,
                out@ == ascii_lower_text(cs@.take(i as int)),
            decreases cs@.len() - i,
        {
            out.push(lower_ascii_char(cs[i]));
            i = i + 1;
            assert(out@ =~= ascii_lower_text(cs@.take(i as int)));
        }
        assert(cs@.take(cs@.len() as int) =~= cs@);
        Ok(NormalizedInput::new(string_from_chars(&out)))
    }

    fn parse_input(&self, input: &NormalizedInput) -> (r: Result<ParsedInput, ImeError>)
        ensures
            r matches Ok(p) && p@ == input@,
    {
        Ok(ParsedInput::new(input.code().to_owned()))
    }

    fn candidate_identity(&self, candidate_text: &str) -> (r: CandidateIdentity)
        ensures
            r@ == candidate_text@,
    {
        CandidateIdentity::from_text(candidate_text)
    }
}

} // verus!
