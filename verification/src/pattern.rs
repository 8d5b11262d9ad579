//! One compiled regular expression, kept beside the pattern text it was
//! compiled from. The two trusted wrappers here are the library's only
//! reliance on the `regex` crate.

use vstd::prelude::*;

verus! {

#[verifier::external_type_specification]
#[verifier::external_body]
pub struct ExRegex(regex::Regex);

/// Whether `regex::Regex::new` accepts `pat` (a valid pattern within the
/// default size limit); a function of the pattern text alone.
pub uninterp spec fn regex_ok(pat: Seq<char>) -> bool;

/// Whether the regular expression `pat` matches anywhere in `text`; a
/// function of the two texts alone.
pub uninterp spec fn regex_match(pat: Seq<char>, text: Seq<char>) -> bool;

/// Relies on `regex::Regex::new`: compiles `pat`, succeeding exactly on the
/// patterns the crate accepts; the error is rendered to its display text.
#[verifier::external_body]
fn regex_new(pat: &str) -> (r: Result<regex::Regex, String>)
    ensures
        r is Ok <==> regex_ok(pat@),
{
    regex::Regex::new(pat).map_err(|e| e.to_string())
}

/// A compiled pattern together with its source text. Its view is the source
/// text; the compiled field is always the successful compilation of that
/// text, since the only constructor is `compile`.
#[derive(Debug)]
pub struct Pattern {
    src: String,
    re: regex::Regex,
}

/// Relies on `regex::Regex::is_match`: reports whether the compiled pattern
/// matches anywhere in `text`. Sound because a `Pattern`'s compiled field is
/// always the compilation of its source text (its view): the only
/// constructors are `compile`, which pairs them, and `clone`, which keeps
/// the pair.
#[verifier::external_body]
fn pattern_is_match(p: &Pattern, text: &str) -> (r: bool)
    ensures
        r == regex_match(p@, text@),
{
    p.re.is_match(text)
}

impl View for Pattern {
    type V = Seq<char>;

    closed spec fn view(&self) -> Seq<char> {
        self.src@
    }
}

impl DeepView for Pattern {
    type V = Seq<char>;

    open spec fn deep_view(&self) -> Seq<char> {
        self.view()
    }
}

pub assume_specification[ <regex::Regex as Clone>::clone ](re: &regex::Regex) -> regex::Regex;

impl Clone for Pattern {
    /// The clone keeps the source text; the compiled field is cloned by the
    /// regex engine and stays the compilation of that source.
    fn clone(&self) -> (r: Self)
        ensures
            r@ == self@,
    {
        Pattern { src: self.src.clone(), re: self.re.clone() }
    }
}

impl Pattern {
    /// Compiles one pattern; succeeds exactly on the texts the regular
    /// expression engine accepts.
    pub fn compile(pat: &str) -> (r: Result<Pattern, String>)
        ensures
            r is Ok <==> regex_ok(pat@),
            r is Ok ==> r->Ok_0@ == pat@,
    {
        match regex_new(pat) {
            Ok(re) => Ok(Pattern { src: pat.to_owned(), re }),
            Err(e) => Err(e),
        }
    }

    /// The pattern's source text.
    pub fn as_str(&self) -> (r: &str)
        ensures
            r@ == self@,
    {
        self.src.as_str()
    }

    /// Whether the pattern matches anywhere in `text`.
    pub fn is_match(&self, text: &str) -> (r: bool)
        ensures
            r == regex_match(self@, text@),
    {
        pattern_is_match(self, text)
    }
}

} // verus!
