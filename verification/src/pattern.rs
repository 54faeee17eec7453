//! Regular-expression tokens of the path grammar. Compilation and matching
//! are done by the `regex` crate; the verifier sees them only through the
//! named results and the trusted wrappers below.

use vstd::prelude::*;

verus! {

/// `regex::Regex` is opaque to the verifier; values of it are carried inside
/// `PatternDesc` and reached only through the trusted wrappers below.
#[verifier::external_type_specification]
#[verifier::external_body]
pub struct ExRegex(regex::Regex);

/// Whether `regex::Regex::new` accepts `pat`: a function of the pattern
/// text alone.
pub uninterp spec fn regex_compiles(pat: Seq<char>) -> bool;

/// The number of capture groups of the compiled pattern `pat`, counting the
/// implicit group for the whole match.
pub uninterp spec fn regex_group_count(pat: Seq<char>) -> nat;

/// The sub-groups (groups 1 and up) of matching `pat` against `text`:
/// `None` when the pattern does not match, otherwise one entry per group,
/// with `None` for a group that did not participate in the match.
pub uninterp spec fn regex_groups(pat: Seq<char>, text: Seq<char>) -> Option<
    Seq<Option<Seq<char>>>,
>;

/// A compiled pattern together with its source text. Contracts identify the
/// pattern by its source alone; the compiled form is kept beside it so that
/// matching does not recompile.
pub struct PatternDesc {
    re: regex::Regex,
    src: String,
}

impl PatternDesc {
    /// The source text the pattern was compiled from.
    pub closed spec fn src_view(&self) -> Seq<char> {
        self.src@
    }

    /// Relies on `regex::Regex::new`: compiling is a function of the pattern
    /// text alone, and succeeds exactly when the text is a valid pattern.
    #[verifier::external_body]
    pub fn new(src: &str) -> (r: Option<PatternDesc>)
        ensures
            (r matches Some(p) ==> p.src_view() == src@),
            (r is Some) == regex_compiles(src@),
    {
        match regex::Regex::new(src) {
            Ok(re) => Some(PatternDesc { re, src: src.to_owned() }),
            Err(_) => None,
        }
    }

    /// The source text of the pattern.
    pub fn src(&self) -> (r: &str)
        ensures
            r@ == self.src_view(),
    {
        self.src.as_str()
    }

    /// Relies on `regex::Regex::captures` and `regex::Captures::get`: which
    /// sub-groups match, and what they match, is a function of the pattern
    /// and the text alone. `regex::Captures::len` equals the pattern's group
    /// count, so the returned vector holds one entry per sub-group.
    #[verifier::external_body]
    pub(crate) fn captures(&self, text: &str) -> (r: Option<Vec<Option<String>>>)
        ensures
            r.deep_view() == regex_groups(self.src_view(), text@),
            (r matches Some(groups) ==> groups@.len() + 1 == regex_group_count(
                self.src_view(),
            )),
    {
        match self.re.captures(text) {
            None => None,
            Some(caps) => {
                let mut groups: Vec<Option<String>> = Vec::new();
                for i in 1..caps.len() {
                    groups.push(caps.get(i).map(|m| m.as_str().to_owned()));
                }
                Some(groups)
            },
        }
    }

    /// Relies on `regex::Regex::captures_len`: the group count of a compiled
    /// pattern, which counts the implicit whole-match group and is therefore
    /// at least one.
    #[verifier::external_body]
    pub(crate) fn captures_len(&self) -> (r: usize)
        ensures
            r == regex_group_count(self.src_view()),
            r >= 1,
    {
        self.re.captures_len()
    }
}

} // verus!
