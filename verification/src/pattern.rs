//! Compiled name patterns.
//!
//! Matching is done by the `regex` crate. Whether a pattern text compiles,
//! and whether a compiled pattern matches a given name, are both functions
//! of the texts alone, so each is given a name here (`regex_accepts`,
//! `regex_matches`) and every contract in the library speaks of those names.

use vstd::prelude::*;

verus! {

/// The compiled pattern type of the `regex` crate; opaque to the verifier.
#[verifier::external_type_specification]
#[verifier::external_body]
pub struct ExRegex(regex::Regex);

/// Whether `regex::Regex::new` succeeds on the pattern text `pat`.
pub uninterp spec fn regex_accepts(pat: Seq<char>) -> bool;

/// What `regex::Regex::is_match` returns when a pattern compiled from
/// `pat` is asked about the text `text` (an unanchored search: true iff a
/// match exists anywhere in `text`).
pub uninterp spec fn regex_matches(pat: Seq<char>, text: Seq<char>) -> bool;

/// A name pattern: the pattern text together with its compilation by the
/// `regex` crate. The only constructor is [`NamePattern::compile`], so the
/// compiled expression always belongs to the stored text.
pub struct NamePattern {
    pattern: String,
    compiled: regex::Regex,
}

impl View for NamePattern {
    type V = Seq<char>;

    /// A pattern is modelled by its pattern text.
    closed spec fn view(&self) -> Seq<char> {
        self.pattern@
    }
}

impl NamePattern {
    /// Relies on `regex::Regex::new`: it returns `Ok` exactly when the
    /// pattern text is a valid regular expression (of acceptable size),
    /// which is a function of the text alone, here named `regex_accepts`.
    #[verifier::external_body]
    pub fn compile(pattern: &str) -> (r: Option<NamePattern>)
        ensures
            r is Some <==> regex_accepts(pattern@),
            r matches Some(p) ==> p@ == pattern@,
    {
        match regex::Regex::new(pattern) {
            Ok(compiled) => Some(NamePattern { pattern: pattern.to_owned(), compiled }),
            Err(_) => None,
        }
    }

    /// Relies on `regex::Regex::is_match`: its result depends only on the
    /// pattern the expression was compiled from and on the text searched,
    /// here named `regex_matches`.
    #[verifier::external_body]
    pub fn is_match(&self, text: &str) -> (r: bool)
        ensures
            r == regex_matches(self@, text@),
    {
        self.compiled.is_match(text)
    }

    /// The pattern text this pattern was compiled from.
    pub fn text(&self) -> (r: &str)
        ensures
            r@ == self@,
    {
        self.pattern.as_str()
    }
}

} // verus!
