//! The pattern engines the rule set is built on: shell-style glob patterns
//! and regular expressions, together with Unicode case folding.
//!
//! Everything here that calls into the `glob` or `regex` crate (or into
//! `str::to_lowercase`) is a trusted wrapper: its contract names the result
//! rather than restating an engine's semantics, and the rest of the crate is
//! verified against those names.

use vstd::prelude::*;

verus! {

#[verifier::external_type_specification]
#[verifier::external_body]
pub struct ExGlobPattern(glob::Pattern);

#[verifier::external_type_specification]
#[verifier::external_body]
pub struct ExRegex(regex::Regex);

/// Whether `glob::Pattern::new` accepts `pattern`; a function of the
/// pattern text alone.
pub uninterp spec fn glob_syntax_ok(pattern: Seq<char>) -> bool;

/// What `glob::Pattern::matches_with` returns for a compiled `pattern`,
/// a candidate `text`, and the three match options; a function of those
/// five values alone.
pub uninterp spec fn glob_match(
    pattern: Seq<char>,
    text: Seq<char>,
    case_sensitive: bool,
    require_literal_separator: bool,
    require_literal_leading_dot: bool,
) -> bool;

/// Whether `regex::RegexBuilder::build` accepts `pattern` under the given
/// case-insensitivity flag (Unicode mode always on).
pub uninterp spec fn regex_syntax_ok(pattern: Seq<char>, case_insensitive: bool) -> bool;

/// What `regex::Regex::is_match` returns for a pattern compiled with the
/// given case-insensitivity flag, applied to `text`; a function of those
/// three values alone.
pub uninterp spec fn regex_match(pattern: Seq<char>, case_insensitive: bool, text: Seq<char>) -> bool;

/// What `str::to_lowercase` returns; a function of the characters alone.
pub uninterp spec fn lower_of(s: Seq<char>) -> Seq<char>;

/// The options a glob rule is evaluated with, mirroring the three switches
/// of the glob engine's match options.
#[derive(Clone, Copy, Debug, PartialEq, Eq, Structural)]
pub struct GlobOptions {
    pub case_sensitive: bool,
    pub require_literal_separator: bool,
    pub require_literal_leading_dot: bool,
}

/// A compiled glob pattern together with the text it was compiled from.
///
/// Values are only ever built by `compile_glob`, so the compiled pattern is
/// always the one the glob engine derives from `source`, and a match result
/// is a function of `source`, the candidate, and the options.
pub struct CompiledGlob {
    pattern: glob::Pattern,
    source: String,
}

impl View for CompiledGlob {
    type V = Seq<char>;

    closed spec fn view(&self) -> Seq<char> {
        self.source@
    }
}

impl CompiledGlob {
    /// The text this pattern was compiled from.
    pub fn pattern_text(&self) -> (r: &String)
        ensures
            r@ == self@,
    {
        &self.source
    }
}

/// Relies on glob::Pattern::new: compiles the pattern text, or rejects it
/// when the syntax is invalid.
#[verifier::external_body]
pub(crate) fn compile_glob(pattern: &Vec<char>) -> (r: Option<CompiledGlob>)
    ensures
        r is Some <==> glob_syntax_ok(pattern@),
        r is Some ==> r->Some_0@ == pattern@,
{
    let text: String = pattern.iter().collect();
    match glob::Pattern::new(&text) {
        Ok(p) => Some(CompiledGlob { pattern: p, source: text }),
        Err(_) => None,
    }
}

/// Relies on glob::Pattern::matches_with: the result depends on the pattern
/// text, the candidate, and the three match options alone.
#[verifier::external_body]
pub(crate) fn glob_match_text(g: &CompiledGlob, text: &str, opts: &GlobOptions) -> (r: bool)
    ensures
        r == glob_match(
            g@,
            text@,
            opts.case_sensitive,
            opts.require_literal_separator,
            opts.require_literal_leading_dot,
        ),
{
    g.pattern.matches_with(
        text,
        glob::MatchOptions {
            case_sensitive: opts.case_sensitive,
            require_literal_separator: opts.require_literal_separator,
            require_literal_leading_dot: opts.require_literal_leading_dot,
        },
    )
}

/// A compiled regular expression together with the text it was compiled
/// from and the case-insensitivity flag it was compiled with.
///
/// Values are only ever built by `compile_regex`, so the compiled automaton
/// is always the one the regex engine derives from `source` and
/// `case_insensitive`, and a match result is a function of those two values
/// and the candidate.
pub struct CompiledRegex {
    regex: regex::Regex,
    source: String,
    case_insensitive: bool,
}

impl CompiledRegex {
    /// The text this regular expression was compiled from.
    pub closed spec fn spec_pattern(&self) -> Seq<char> {
        self.source@
    }

    /// The case-insensitivity flag this regular expression was compiled with.
    pub closed spec fn spec_ci(&self) -> bool {
        self.case_insensitive
    }

    /// The text this regular expression was compiled from.
    pub fn pattern_text(&self) -> (r: &String)
        ensures
            r@ == self.spec_pattern(),
    {
        &self.source
    }
}

/// Relies on regex::RegexBuilder (new, case_insensitive, unicode, build):
/// compiles the pattern text under the given case-insensitivity flag, with
/// Unicode mode on, or rejects it when the syntax is invalid.
#[verifier::external_body]
pub(crate) fn compile_regex(pattern: &String, case_insensitive: bool) -> (r: Option<CompiledRegex>)
    ensures
        r is Some <==> regex_syntax_ok(pattern@, case_insensitive),
        r is Some ==> r->Some_0.spec_pattern() == pattern@ && r->Some_0.spec_ci()
            == case_insensitive,
{
    match regex::RegexBuilder::new(pattern).case_insensitive(case_insensitive).unicode(
        true,
    ).build() {
        Ok(re) => Some(
            CompiledRegex { regex: re, source: pattern.clone(), case_insensitive },
        ),
        Err(_) => None,
    }
}

/// Relies on regex::Regex::is_match: the result depends on the pattern text,
/// its case-insensitivity flag, and the candidate alone.
#[verifier::external_body]
pub(crate) fn regex_is_match(re: &CompiledRegex, text: &str) -> (r: bool)
    ensures
        r == regex_match(re.spec_pattern(), re.spec_ci(), text@),
{
    re.regex.is_match(text)
}

/// Relies on str::to_lowercase: the result depends on the characters alone.
#[verifier::external_body]
pub(crate) fn lowercase(s: &str) -> (r: String)
    ensures
        r@ == lower_of(s@),
{
    s.to_lowercase()
}

} // verus!
