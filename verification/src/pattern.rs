//! Compiled patterns and the field substitution, one type per data mode.
//!
//! The engine's matching and template expansion are consumed through a narrow
//! contract: what `replace_all` returns is a function of the pattern source,
//! the field and the template alone, and is given a name here rather than an
//! equation. Each pattern type couples the compiled engine to the source text
//! it was compiled from: the only constructors compile exactly the stored
//! source, so the names below are well defined.

use vstd::prelude::*;

use crate::errors::Error;

verus! {

#[verifier::external_type_specification]
#[verifier::external_body]
pub struct ExRegex(regex::Regex);

#[verifier::external_type_specification]
#[verifier::external_body]
pub struct ExBytesRegex(regex::bytes::Regex);

/// What replacing every match of the pattern compiled from `pattern` in
/// `field` with the expanded `template` yields, in text mode.
pub uninterp spec fn replaced_text(pattern: Seq<char>, field: Seq<char>, template: Seq<char>) -> Seq<
    char,
>;

/// The byte-mode counterpart of `replaced_text`.
pub uninterp spec fn replaced_bytes(pattern: Seq<char>, field: Seq<u8>, template: Seq<u8>) -> Seq<
    u8,
>;

/// Whether the text-mode engine accepts this pattern text. Compilation is a
/// function of the pattern alone.
pub uninterp spec fn text_compiles(pattern: Seq<char>) -> bool;

/// Whether the byte-mode engine accepts this pattern text.
pub uninterp spec fn byte_compiles(pattern: Seq<char>) -> bool;

/// Relies on regex::Regex::new: compiles the pattern text, or reports the
/// engine's syntax diagnostic. Whether a given pattern compiles depends on
/// the pattern alone, named here `text_compiles`.
#[verifier::external_body]
fn compile_text(pattern: &str) -> (r: Result<regex::Regex, String>)
    ensures
        r matches Ok(_) <==> text_compiles(pattern@),
{
    regex::Regex::new(pattern).map_err(|e| e.to_string())
}

/// Relies on regex::bytes::Regex::new: as `compile_text`, for the byte-mode
/// engine and its `byte_compiles`.
#[verifier::external_body]
fn compile_bytes(pattern: &str) -> (r: Result<regex::bytes::Regex, String>)
    ensures
        r matches Ok(_) <==> byte_compiles(pattern@),
{
    regex::bytes::Regex::new(pattern).map_err(|e| e.to_string())
}

/// Relies on regex::Regex::replace_all: replaces every non-overlapping match,
/// leftmost first, expanding `$name`, `${name}` and `$0`, `$1`, ... template
/// references ($$ is a literal dollar; an unknown group expands to empty).
/// The result depends on the pattern source, the field and the template
/// alone, so it equals the named `replaced_text` of the three.
#[verifier::external_body]
fn engine_replace_all_text(p: &TextPattern, field: &str, template: &str) -> (r: String)
    ensures
        r@ == replaced_text(p.src(), field@, template@),
{
    p.re.replace_all(field, template).into_owned()
}

/// Relies on regex::bytes::Regex::replace_all: as `engine_replace_all_text`,
/// over raw bytes, with no requirement that the field be valid Unicode.
#[verifier::external_body]
fn engine_replace_all_bytes(p: &BytePattern, field: &[u8], template: &[u8]) -> (r: Vec<u8>)
    ensures
        r@ == replaced_bytes(p.src(), field@, template@),
{
    p.re.replace_all(field, template).into_owned()
}

/// A pattern over Unicode text, with the source it was compiled from.
pub struct TextPattern {
    source: String,
    re: regex::Regex,
}

impl TextPattern {
    /// The pattern text this engine was compiled from.
    pub closed spec fn src(&self) -> Seq<char> {
        self.source@
    }

    /// Compiles `pattern` for text-mode matching; succeeds exactly when the
    /// engine accepts the pattern.
    pub fn new(pattern: &String) -> (r: Result<TextPattern, Error>)
        ensures
            r matches Ok(_) <==> text_compiles(pattern@),
            r matches Ok(p) ==> p.src() == pattern@,
            r matches Err(e) ==> e matches Error::PatternCompile(_),
    {
        match compile_text(pattern.as_str()) {
            Ok(re) => Ok(TextPattern { source: pattern.clone(), re }),
            Err(msg) => Err(Error::PatternCompile(msg)),
        }
    }

    /// Replaces every match of the pattern in `field` with the expanded
    /// template.
    pub fn replace_all(&self, field: &str, template: &String) -> (r: String)
        ensures
            r@ == replaced_text(self.src(), field@, template@),
    {
        engine_replace_all_text(self, field, template.as_str())
    }
}

/// A pattern over raw bytes, with the source it was compiled from.
pub struct BytePattern {
    source: String,
    re: regex::bytes::Regex,
}

impl BytePattern {
    /// The pattern text this engine was compiled from.
    pub closed spec fn src(&self) -> Seq<char> {
        self.source@
    }

    /// Compiles `pattern` for byte-mode matching; succeeds exactly when the
    /// engine accepts the pattern.
    pub fn new(pattern: &String) -> (r: Result<BytePattern, Error>)
        ensures
            r matches Ok(_) <==> byte_compiles(pattern@),
            r matches Ok(p) ==> p.src() == pattern@,
            r matches Err(e) ==> e matches Error::PatternCompile(_),
    {
        match compile_bytes(pattern.as_str()) {
            Ok(re) => Ok(BytePattern { source: pattern.clone(), re }),
            Err(msg) => Err(Error::PatternCompile(msg)),
        }
    }

    /// Replaces every match of the pattern in `field` with the expanded
    /// template.
    pub fn replace_all(&self, field: &Vec<u8>, template: &Vec<u8>) -> (r: Vec<u8>)
        ensures
            r@ == replaced_bytes(self.src(), field@, template@),
    {
        engine_replace_all_bytes(self, field.as_slice(), template.as_slice())
    }
}

} // verus!
