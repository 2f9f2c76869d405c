use vstd::prelude::*;

verus! {

/// `regex::Regex`, carried through the library as an opaque value.
#[verifier::external_type_specification]
#[verifier::external_body]
pub struct ExRegex(regex::Regex);

/// Whether `regex::Regex::new` accepts `pattern`: it is valid syntax and the compiled
/// program stays within the default size limit.
pub uninterp spec fn regex_compiles(pattern: Seq<char>) -> bool;

/// The text that capture group `group` of the leftmost-first match of `pattern` in
/// `haystack` covers, as `regex::Regex::captures` followed by `Captures::get` reports it;
/// `None` where there is no match or the group does not take part in it.
pub uninterp spec fn regex_capture(pattern: Seq<char>, haystack: Seq<char>, group: nat) -> Option<Seq<char>>;

/// A regular expression compiled from a known pattern.
pub struct CompiledPattern {
    regex: regex::Regex,
    source: String,
}

impl CompiledPattern {
    /// The pattern this expression was compiled from.
    pub closed spec fn source(&self) -> Seq<char> {
        self.source@
    }
}

/// Compiles `pattern`.
///
/// Trusted: `regex::Regex::new` returns `Ok` exactly when `regex_compiles(pattern)`; the
/// source text is kept beside the compiled expression, so that `source()` is `pattern`.
#[verifier::external_body]
pub(crate) fn compile_pattern(pattern: &str) -> (res: Option<CompiledPattern>)
    ensures
        res is Some <==> regex_compiles(pattern@),
        res matches Some(p) ==> p.source() == pattern@,
{
    match regex::Regex::new(pattern) {
        Ok(regex) => Some(CompiledPattern { regex, source: pattern.to_string() }),
        Err(_) => None,
    }
}

/// The text of capture group `group` where `p` matches `haystack`.
///
/// Trusted: `regex::Regex::captures`, then `Captures::get(group)` and `Match::as_str`,
/// give `regex_capture(p.source(), haystack, group)`. The regex semantics behind that name
/// are not stated: the contract only ties the result to the pattern, the haystack and the
/// group.
#[verifier::external_body]
pub(crate) fn capture_group(p: &CompiledPattern, haystack: &str, group: usize) -> (res: Option<String>)
    ensures
        res is Some <==> regex_capture(p.source(), haystack@, group as nat) is Some,
        res matches Some(s) ==> s@ == regex_capture(p.source(), haystack@, group as nat)->0,
{
    p.regex.captures(haystack).and_then(|caps| caps.get(group)).map(|m| m.as_str().to_string())
}

} // verus!
