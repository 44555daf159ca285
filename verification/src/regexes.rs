//! Regular expressions, through the `regex` crate.
use vstd::prelude::*;

verus! {

#[verifier::external_type_specification]
#[verifier::external_body]
pub struct ExRegex(regex::Regex);

#[verifier::external_type_specification]
#[verifier::external_body]
pub struct ExRegexError(regex::Error);

/// Name for whether `regex` builds a regular expression from `pattern` with
/// the given case-insensitivity (it refuses invalid patterns and patterns
/// over its size limits).
pub uninterp spec fn regex_compiles(pattern: Seq<char>, case_insensitive: bool) -> bool;

/// Name for whether the regular expression built from `pattern` (with the
/// given case-insensitivity) matches somewhere in `haystack`.
pub uninterp spec fn regex_matches(
    pattern: Seq<char>,
    case_insensitive: bool,
    haystack: Seq<char>,
) -> bool;

/// A compiled regular expression together with the pattern and setting it
/// was built from.
pub struct Matcher {
    pattern: String,
    case_insensitive: bool,
    re: regex::Regex,
}

impl Matcher {
    pub closed spec fn pattern_view(&self) -> Seq<char> {
        self.pattern@
    }

    pub closed spec fn is_case_insensitive(&self) -> bool {
        self.case_insensitive
    }

    /// Whether the expression matches somewhere in `haystack`
    /// (`regex::Regex::is_match`); the result is named by [`regex_matches`]
    /// on the pattern, setting and haystack.
    #[verifier::external_body]
    pub(crate) fn is_match(&self, haystack: &str) -> (res: bool)
        ensures
            res == regex_matches(self.pattern_view(), self.is_case_insensitive(), haystack@),
    {
        self.re.is_match(haystack)
    }
}

/// Builds a regular expression (`regex::RegexBuilder::new(pattern)
/// .case_insensitive(..).build()`); it succeeds exactly when
/// [`regex_compiles`] holds, and the matcher keeps the pattern and setting.
#[verifier::external_body]
fn build_matcher(pattern: &str, case_insensitive: bool) -> (res: Result<Matcher, regex::Error>)
    ensures
        res is Ok <==> regex_compiles(pattern@, case_insensitive),
        res matches Ok(m) ==> m.pattern_view() == pattern@ && m.is_case_insensitive()
            == case_insensitive,
{
    match regex::RegexBuilder::new(pattern).case_insensitive(case_insensitive).build() {
        Ok(re) => Ok(Matcher { pattern: pattern.to_string(), case_insensitive, re }),
        Err(e) => Err(e),
    }
}

/// A pattern that does not compile.
pub struct BadRegex {
    pub pattern: String,
}

/// Case-insensitivity as a request sets it: insensitive unless
/// `case_sensitive` is `true`.
pub open spec fn insensitive(case_sensitive: Option<bool>) -> bool {
    case_sensitive != Some(true)
}

/// Compiles `pattern`, case-insensitive unless `case_sensitive` is `true`.
pub fn compile_regex(pattern: &str, case_sensitive: Option<bool>) -> (res: Result<Matcher, BadRegex>)
    ensures
        res is Ok <==> regex_compiles(pattern@, insensitive(case_sensitive)),
        res matches Ok(m) ==> m.pattern_view() == pattern@ && m.is_case_insensitive()
            == insensitive(case_sensitive),
        res matches Err(e) ==> e.pattern@ == pattern@,
{
    let ci = match case_sensitive {
        Some(true) => false,
        _ => true,
    };
    match build_matcher(pattern, ci) {
        Ok(m) => Ok(m),
        Err(_) => Err(BadRegex { pattern: pattern.to_owned() }),
    }
}

/// Compiles every term; fails on the first one that does not compile.
pub fn compile_regex_terms(terms: &Vec<String>, case_sensitive: Option<bool>) -> (res: Result<
    Vec<Matcher>,
    BadRegex,
>)
    ensures
        res is Ok <==> forall|i: int|
            0 <= i < terms@.len() ==> regex_compiles(
                #[trigger] terms@[i]@,
                insensitive(case_sensitive),
            ),
        res matches Ok(ms) ==> ms@.len() == terms@.len() && forall|i: int|
            0 <= i < terms@.len() ==> (#[trigger] ms@[i]).pattern_view() == terms@[i]@
                && ms@[i].is_case_insensitive() == insensitive(case_sensitive),
{
    let n = terms.len();
    let mut out: Vec<Matcher> = Vec::new();
    let mut i: usize = 0;
    while i < n
        invariant
            i <= n == terms@.len(),
            out@.len() == i,
            forall|j: int|
                0 <= j < i ==> regex_compiles(#[trigger] terms@[j]@, insensitive(case_sensitive)),
            forall|j: int|
                0 <= j < i ==> (#[trigger] out@[j]).pattern_view() == terms@[j]@
                    && out@[j].is_case_insensitive() == insensitive(case_sensitive),
        decreases n - i,
    {
        match compile_regex(terms[i].as_str(), case_sensitive) {
            Ok(m) => {
                out.push(m);
            },
            Err(e) => {
                return Err(e);
            },
        }
        i = i + 1;
    }
    Ok(out)
}

/// Characters with a meaning in regular expressions
/// (`regex_syntax::is_meta_character`).
pub open spec fn is_regex_meta(c: char) -> bool {
    c == '\\' || c == '.' || c == '+' || c == '*' || c == '?' || c == '(' || c == ')' || c
        == '|' || c == '[' || c == ']' || c == '{' || c == '}' || c == '^' || c == '$' || c
        == '#' || c == '&' || c == '-' || c == '~'
}

/// `s` with a backslash before every meta character, so that it matches
/// itself literally.
pub open spec fn escaped(s: Seq<char>) -> Seq<char>
    decreases s.len(),
{
    if s.len() == 0 {
        seq![]
    } else {
        escaped(s.drop_last()) + if is_regex_meta(s.last()) {
            seq!['\\', s.last()]
        } else {
            seq![s.last()]
        }
    }
}

/// Escapes meta characters (`regex::escape`, which puts a backslash before
/// each meta character and keeps every other character).
#[verifier::external_body]
pub(crate) fn regex_escape(s: &str) -> (res: String)
    ensures
        res@ == escaped(s@),
{
    regex::escape(s)
}

} // verus!
