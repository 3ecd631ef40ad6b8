//! Regular-expression patterns over key names.
use vstd::prelude::*;

verus! {

/// A compiled regular expression; Verus sees nothing inside it.
#[verifier::external_type_specification]
#[verifier::external_body]
pub struct ExRegex(regex::Regex);

/// Whether the regex crate accepts `source` as a regular expression.
pub uninterp spec fn pattern_compiles(source: Seq<char>) -> bool;

/// Whether the regular expression `source` matches somewhere in `text`.
pub uninterp spec fn pattern_matches(source: Seq<char>, text: Seq<char>) -> bool;

/// Relies on `regex::Regex::new`: whether it succeeds depends on the pattern
/// alone.
#[verifier::external_body]
fn regex_new(source: &str) -> (r: Option<regex::Regex>)
    ensures
        r is Some <==> pattern_compiles(source@),
{
    regex::Regex::new(source).ok()
}

/// A pattern together with its compiled form. Its fields are private, so the
/// regular expression held is always the one compiled from `source`.
pub struct KeyPattern {
    source: String,
    regex: regex::Regex,
}

impl KeyPattern {
    /// The text the pattern was compiled from.
    pub closed spec fn source_text(&self) -> Seq<char> {
        self.source@
    }

    /// Compiles a pattern; `None` when it is not a valid regular expression.
    pub fn new(source: &str) -> (r: Option<KeyPattern>)
        ensures
            r is Some <==> pattern_compiles(source@),
            r is Some ==> r->0.source_text() == source@,
    {
        match regex_new(source) {
            Some(regex) => Some(KeyPattern { source: source.to_owned(), regex }),
            None => None,
        }
    }

    /// Relies on `regex::Regex::is_match`, on the expression compiled from
    /// `source` by `new`: a match anywhere in the text.
    #[verifier::external_body]
    pub(crate) fn is_match(&self, text: &str) -> (r: bool)
        ensures
            r == pattern_matches(self.source_text(), text@),
    {
        self.regex.is_match(text)
    }
}

} // verus!
