//! Regular expressions, compiled and run by the `regex` crate.
use vstd::prelude::*;

verus! {

#[verifier::external_type_specification]
#[verifier::external_body]
pub struct ExRegex(regex::Regex);

#[verifier::external_type_specification]
#[verifier::external_body]
pub struct ExRegexError(regex::Error);

/// A regular expression compiled by `regex`, together with the pattern it
/// was compiled from. Only `compile_regex` makes one, so its view is always
/// the pattern of the expression it holds.
pub struct CompiledRegex {
    regex: regex::Regex,
    pattern: Ghost<Seq<char>>,
}

impl View for CompiledRegex {
    type V = Seq<char>;

    /// The pattern the expression was compiled from.
    closed spec fn view(&self) -> Seq<char> {
        self.pattern@
    }
}

/// Whether `regex::Regex::new` accepts the pattern.
pub uninterp spec fn regex_accepts(pattern: Seq<char>) -> bool;

/// Compiles a pattern with `regex::Regex::new`. Its contract claims that
/// whether the pattern is accepted depends on the pattern alone, and that
/// the compiled expression is the one of that pattern.
#[verifier::external_body]
pub(crate) fn compile_regex(pattern: &str) -> (res: Result<CompiledRegex, regex::Error>)
    ensures
        res is Ok <==> regex_accepts(pattern@),
        res matches Ok(r) ==> r@ == pattern@,
{
    match regex::Regex::new(pattern) {
        Ok(regex) => Ok(CompiledRegex { regex, pattern: Ghost(pattern@) }),
        Err(error) => Err(error),
    }
}

/// The capture groups of the leftmost-first match of `pattern` in
/// `haystack`, as `regex::Regex::captures` finds them: `None` where nothing
/// matches; otherwise each group in order, as the text it matched or
/// `None` where it took no part in the match.
pub uninterp spec fn regex_captures_of(pattern: Seq<char>, haystack: Seq<char>) -> Option<
    Seq<Option<Seq<char>>>,
>;

/// `part` is a contiguous piece of `whole`.
pub open spec fn is_substring(part: Seq<char>, whole: Seq<char>) -> bool {
    exists|i: int|
        0 <= i && i + part.len() <= whole.len() && #[trigger] whole.subrange(i, i + part.len()) == part
}

/// The view of one capture group.
pub open spec fn group_view(g: Option<String>) -> Option<Seq<char>> {
    match g {
        Some(s) => Some(s@),
        None => None,
    }
}

/// The view of the capture groups of a match, if any.
pub open spec fn groups_view(groups: Option<Vec<Option<String>>>) -> Option<Seq<Option<Seq<char>>>> {
    match groups {
        Some(g) => Some(g@.map_values(|x: Option<String>| group_view(x))),
        None => None,
    }
}

/// Capture groups as `regex` reports them for a match in `haystack`: group
/// 0, the whole match, is always present, and every group's text is a piece
/// of the haystack.
pub open spec fn well_formed_groups(groups: Option<Seq<Option<Seq<char>>>>, haystack: Seq<char>) -> bool {
    groups matches Some(g) ==> {
        &&& g.len() >= 1
        &&& g[0] is Some
        &&& forall|i: int|
            0 <= i < g.len() ==> (#[trigger] g[i] matches Some(t) ==> is_substring(t, haystack))
    }
}

/// Runs `regex::Regex::captures` and lists the capture groups in order.
/// Its contract claims that the groups are those of the expression's
/// pattern in the haystack, and what the crate documents of every match:
/// group 0 is present and every group's text is a piece of the haystack.
#[verifier::external_body]
pub(crate) fn regex_captures(regex: &CompiledRegex, haystack: &str) -> (res: Option<
    Vec<Option<String>>,
>)
    ensures
        groups_view(res) == regex_captures_of(regex@, haystack@),
        well_formed_groups(groups_view(res), haystack@),
{
    match regex.regex.captures(haystack) {
        None => None,
        Some(caps) => {
            let mut groups = Vec::new();
            for group in caps.iter() {
                groups.push(group.map(|m| m.as_str().to_owned()));
            }
            Some(groups)
        },
    }
}

} // verus!
