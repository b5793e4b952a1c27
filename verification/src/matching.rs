//! The compiled match rules: how a raw filter string becomes a rule, and
//! what it means for a rule to match a traversal entry.
//!
//! Policy choices, stated once and used consistently:
//! - `NameGlob`, `Regex`, `Substring` and `Exact` rules look at the basename
//!   only; a path with no basename never matches them.
//! - `PathGlob` and `RegexFullpath` rules look at the full path string.
//! - For substring and exact rules, case folding is baked into the stored
//!   needle at compile time; at match time only the candidate is folded,
//!   and only when matching is case-insensitive.

use vstd::prelude::*;
use vstd::string::StringExecFns;

use crate::config::Config;
use crate::engines::CompiledGlob;
use crate::engines::CompiledRegex;
use crate::engines::GlobOptions;
use crate::engines::compile_glob;
use crate::engines::glob_match;
use crate::engines::glob_match_text;
use crate::engines::glob_syntax_ok;
use crate::engines::compile_regex;
use crate::engines::lower_of;
use crate::engines::lowercase;
use crate::engines::regex_is_match;
use crate::engines::regex_match;
use crate::engines::regex_syntax_ok;
use crate::text::chars_of;
use crate::text::clone_chars;
use crate::text::contains_chars;
use crate::text::contains_glob_characters;
use crate::text::contains_separator;
use crate::text::drop_empty_segments;
use crate::text::has_glob_chars;
use crate::text::has_separator;
use crate::text::is_substring_of;
use crate::text::join_on_slash;
use crate::text::join_with;
use crate::text::keep_nonempty;
use crate::text::split_on_slash;
use crate::text::split_slash;
use crate::text::str_equal;

verus! {

/// Whether a glob pattern is matched against the basename or the full path.
#[derive(Clone, Copy, Debug, PartialEq, Eq, Structural)]
pub enum GlobTarget {
    Name,
    Path,
}

/// One traversal entry as the matcher sees it: the full path as text, and
/// the basename when the path has one (the root path, or a path ending in
/// `..`, has none).
pub struct EntryPath {
    pub full: String,
    pub file_name: Option<String>,
}

impl EntryPath {
    /// The basename's characters, when the path has a basename.
    pub open spec fn spec_name(&self) -> Option<Seq<char>> {
        match self.file_name {
            Some(s) => Some(s@),
            None => None,
        }
    }
}

/// The mathematical content of one compiled rule: its kind, the pattern or
/// needle text it holds, and (for regex rules) the case-insensitivity flag
/// it was compiled with.
pub ghost enum RuleModel {
    NameGlob(Seq<char>),
    PathGlob(Seq<char>),
    Regex { pattern: Seq<char>, case_insensitive: bool },
    RegexFullpath { pattern: Seq<char>, case_insensitive: bool },
    Substring(Seq<char>),
    Exact(Seq<char>),
}

/// A compiled, immutable predicate over one traversal entry.
pub enum MatchRule {
    NameGlob(CompiledGlob),
    PathGlob(CompiledGlob),
    Regex(CompiledRegex),
    RegexFullpath(CompiledRegex),
    Substring(String),
    Exact(String),
}

/// `s` folded under the rule set's case policy: unchanged when matching is
/// case-sensitive, lower-cased otherwise.
pub open spec fn folded(s: Seq<char>, case_sensitive: bool) -> Seq<char> {
    if case_sensitive {
        s
    } else {
        lower_of(s)
    }
}

/// What it means for a rule to match an entry with full path `full` and
/// basename `name`, under the given case policy and glob options.
pub open spec fn model_matches(
    m: RuleModel,
    full: Seq<char>,
    name: Option<Seq<char>>,
    case_sensitive: bool,
    opts: GlobOptions,
) -> bool {
    match m {
        RuleModel::NameGlob(p) => name is Some && glob_match(
            p,
            name->Some_0,
            opts.case_sensitive,
            opts.require_literal_separator,
            opts.require_literal_leading_dot,
        ),
        RuleModel::PathGlob(p) => glob_match(
            p,
            full,
            opts.case_sensitive,
            opts.require_literal_separator,
            opts.require_literal_leading_dot,
        ),
        RuleModel::Regex { pattern, case_insensitive } => name is Some && regex_match(
            pattern,
            case_insensitive,
            name->Some_0,
        ),
        RuleModel::RegexFullpath { pattern, case_insensitive } => regex_match(
            pattern,
            case_insensitive,
            full,
        ),
        RuleModel::Substring(needle) => name is Some && is_substring_of(
            needle,
            folded(name->Some_0, case_sensitive),
        ),
        RuleModel::Exact(needle) => name is Some && folded(name->Some_0, case_sensitive) == needle,
    }
}

/// Whether a rule reads only the basename of an entry.
pub open spec fn is_name_scoped(m: RuleModel) -> bool {
    match m {
        RuleModel::NameGlob(_) => true,
        RuleModel::PathGlob(_) => false,
        RuleModel::Regex { .. } => true,
        RuleModel::RegexFullpath { .. } => false,
        RuleModel::Substring(_) => true,
        RuleModel::Exact(_) => true,
    }
}

/// A basename-scoped rule depends only on the basename, never on the
/// parent directories: two entries with the same basename agree on it,
/// whatever their full paths.
pub proof fn lemma_name_scoped_ignores_parents(
    m: RuleModel,
    full1: Seq<char>,
    full2: Seq<char>,
    name: Option<Seq<char>>,
    case_sensitive: bool,
    opts: GlobOptions,
)
    requires
        is_name_scoped(m),
    ensures
        model_matches(m, full1, name, case_sensitive, opts) == model_matches(
            m,
            full2,
            name,
            case_sensitive,
            opts,
        ),
{
}

/// On an entry with no basename, every basename-scoped rule evaluates to a
/// non-match; evaluation is total, so the outcome is `false`, never an
/// error.
pub proof fn lemma_no_basename_no_match(
    m: RuleModel,
    full: Seq<char>,
    case_sensitive: bool,
    opts: GlobOptions,
)
    requires
        is_name_scoped(m),
    ensures
        !model_matches(m, full, None, case_sensitive, opts),
{
}

/// The last path segment wrapped for the smart-match heuristic: an empty
/// segment becomes `*`, anything else is enclosed in `*`..`*`.
pub open spec fn wrapped_last(last: Seq<char>) -> Seq<char> {
    if last.len() == 0 {
        seq!['*']
    } else {
        seq!['*'] + last + seq!['*']
    }
}

/// The glob pattern the smart-match heuristic builds for an argument that
/// holds a separator but no glob metacharacter: split on `/`, drop empty
/// segments from the front part, wrap the last segment, and reassemble as
/// `**/<front segments>/<wrapped last>`.
pub open spec fn smart_path_pattern(s: Seq<char>) -> Seq<char> {
    let parts = split_slash(s);
    let front = keep_nonempty(parts.drop_last());
    join_with(seq![seq!['*', '*']] + front + seq![wrapped_last(parts.last())], seq!['/'])
}

/// The rule the smart-match heuristic assigns to a free-form argument, or
/// `None` when the chosen glob pattern does not compile:
/// - argument with a separator and a glob metacharacter: a `PathGlob` of
///   the argument verbatim;
/// - argument with a separator and no glob metacharacter: a `PathGlob` of
///   `smart_path_pattern`;
/// - argument without a separator, with a glob metacharacter: a `NameGlob`;
/// - plain argument: a `Substring`, folded under the case policy.
pub open spec fn smart_model(arg: Seq<char>, case_sensitive: bool) -> Option<RuleModel> {
    if has_separator(arg) {
        if has_glob_chars(arg) {
            if glob_syntax_ok(arg) {
                Some(RuleModel::PathGlob(arg))
            } else {
                None
            }
        } else {
            if glob_syntax_ok(smart_path_pattern(arg)) {
                Some(RuleModel::PathGlob(smart_path_pattern(arg)))
            } else {
                None
            }
        }
    } else if has_glob_chars(arg) {
        if glob_syntax_ok(arg) {
            Some(RuleModel::NameGlob(arg))
        } else {
            None
        }
    } else {
        Some(RuleModel::Substring(folded(arg, case_sensitive)))
    }
}

/// The rule kinds the flag families name, plus the smart kind for
/// free-form arguments.
#[derive(Clone, Copy, Debug, PartialEq, Eq, Structural)]
pub enum RuleKind {
    Exact,
    Regex,
    RegexFullpath,
    NameGlob,
    PathGlob,
    Substring,
    Smart,
}

/// The rule one raw argument of the given kind compiles to, or `None` when
/// its pattern is invalid. Substring and exact rules always compile; their
/// needle is folded under the case policy.
pub open spec fn compile_model(kind: RuleKind, arg: Seq<char>, case_sensitive: bool) -> Option<
    RuleModel,
> {
    match kind {
        RuleKind::Exact => Some(RuleModel::Exact(folded(arg, case_sensitive))),
        RuleKind::Regex => if regex_syntax_ok(arg, !case_sensitive) {
            Some(RuleModel::Regex { pattern: arg, case_insensitive: !case_sensitive })
        } else {
            None
        },
        RuleKind::RegexFullpath => if regex_syntax_ok(arg, !case_sensitive) {
            Some(RuleModel::RegexFullpath { pattern: arg, case_insensitive: !case_sensitive })
        } else {
            None
        },
        RuleKind::NameGlob => if glob_syntax_ok(arg) {
            Some(RuleModel::NameGlob(arg))
        } else {
            None
        },
        RuleKind::PathGlob => if glob_syntax_ok(arg) {
            Some(RuleModel::PathGlob(arg))
        } else {
            None
        },
        RuleKind::Substring => Some(RuleModel::Substring(folded(arg, case_sensitive))),
        RuleKind::Smart => smart_model(arg, case_sensitive),
    }
}

impl MatchRule {
    /// The mathematical content of this rule.
    pub open spec fn model(&self) -> RuleModel {
        match self {
            MatchRule::NameGlob(g) => RuleModel::NameGlob(g@),
            MatchRule::PathGlob(g) => RuleModel::PathGlob(g@),
            MatchRule::Regex(re) => (RuleModel::Regex {
                pattern: re.spec_pattern(),
                case_insensitive: re.spec_ci(),
            }),
            MatchRule::RegexFullpath(re) => (RuleModel::RegexFullpath {
                pattern: re.spec_pattern(),
                case_insensitive: re.spec_ci(),
            }),
            MatchRule::Substring(s) => RuleModel::Substring(s@),
            MatchRule::Exact(s) => RuleModel::Exact(s@),
        }
    }

    /// Compiles a glob rule over the basename or the full path. Fails, and
    /// reports the raw pattern, exactly when the glob syntax is invalid.
    pub fn new_glob_match(arg: &String, target: &GlobTarget) -> (r: Result<MatchRule, String>)
        ensures
            r is Ok <==> glob_syntax_ok(arg@),
            r is Ok ==> r->Ok_0.model() == (match target {
                GlobTarget::Name => RuleModel::NameGlob(arg@),
                GlobTarget::Path => RuleModel::PathGlob(arg@),
            }),
            r is Err ==> r->Err_0@ == "Unable to parse pattern "@ + arg@,
    {
        let chars = chars_of(arg.as_str());
        match compile_glob(&chars) {
            Some(g) => match target {
                GlobTarget::Name => Ok(MatchRule::NameGlob(g)),
                GlobTarget::Path => Ok(MatchRule::PathGlob(g)),
            },
            None => {
                let mut m = "Unable to parse pattern ".to_owned();
                m.append(arg.as_str());
                Err(m)
            },
        }
    }

    /// Compiles a regex rule over the basename (or, with `include_path`,
    /// over the full path), case-insensitive unless `case_sensitive`, with
    /// Unicode mode always on. Fails, and reports the raw pattern, exactly
    /// when the regex syntax is invalid.
    pub fn new_regex_match(arg: &String, case_sensitive: bool, include_path: bool) -> (r: Result<
        MatchRule,
        String,
    >)
        ensures
            r is Ok <==> regex_syntax_ok(arg@, !case_sensitive),
            r is Ok ==> r->Ok_0.model() == (if include_path {
                RuleModel::RegexFullpath { pattern: arg@, case_insensitive: !case_sensitive }
            } else {
                RuleModel::Regex { pattern: arg@, case_insensitive: !case_sensitive }
            }),
            r is Err ==> r->Err_0@ == "Unable to parse regex "@ + arg@,
    {
        match compile_regex(arg, !case_sensitive) {
            Some(re) => {
                if include_path {
                    Ok(MatchRule::RegexFullpath(re))
                } else {
                    Ok(MatchRule::Regex(re))
                }
            },
            None => {
                let mut m = "Unable to parse regex ".to_owned();
                m.append(arg.as_str());
                Err(m)
            },
        }
    }

    /// Compiles an exact-basename rule. Always succeeds; when matching is
    /// case-insensitive the stored needle is lower-cased once, here.
    pub fn new_exact_match(arg: &String, case_sensitive: bool) -> (r: Result<MatchRule, String>)
        ensures
            r is Ok,
            r->Ok_0.model() == RuleModel::Exact(folded(arg@, case_sensitive)),
    {
        if case_sensitive {
            Ok(MatchRule::Exact(arg.clone()))
        } else {
            Ok(MatchRule::Exact(lowercase(arg.as_str())))
        }
    }

    /// Compiles a substring-of-basename rule. Always succeeds; when
    /// matching is case-insensitive the stored needle is lower-cased once,
    /// here.
    pub fn new_substr_match(arg: &String, case_sensitive: bool) -> (r: Result<MatchRule, String>)
        ensures
            r is Ok,
            r->Ok_0.model() == RuleModel::Substring(folded(arg@, case_sensitive)),
    {
        if case_sensitive {
            Ok(MatchRule::Substring(arg.clone()))
        } else {
            Ok(MatchRule::Substring(lowercase(arg.as_str())))
        }
    }

    /// Resolves a free-form filter argument by the smart-match heuristic
    /// (see `smart_model`) and compiles the chosen rule. Fails, and reports
    /// the raw argument, exactly when the chosen glob pattern is invalid.
    pub fn new_smart_match(arg: &String, case_sensitive: bool) -> (r: Result<MatchRule, String>)
        ensures
            r is Ok <==> smart_model(arg@, case_sensitive) is Some,
            r is Ok ==> r->Ok_0.model() == smart_model(arg@, case_sensitive)->Some_0,
            r is Err ==> r->Err_0@ == "Unable to parse pattern "@ + arg@,
    {
        let chars = chars_of(arg.as_str());
        if contains_separator(&chars) {
            if contains_glob_characters(&chars) {
                Self::new_glob_match(arg, &GlobTarget::Path)
            } else {
                let pattern = smart_pattern_chars(&chars);
                match compile_glob(&pattern) {
                    Some(g) => Ok(MatchRule::PathGlob(g)),
                    None => {
                        let mut m = "Unable to parse pattern ".to_owned();
                        m.append(arg.as_str());
                        Err(m)
                    },
                }
            }
        } else if contains_glob_characters(&chars) {
            Self::new_glob_match(arg, &GlobTarget::Name)
        } else {
            Self::new_substr_match(arg, case_sensitive)
        }
    }

    /// Compiles one raw argument under the given kind: the entry point the
    /// configuration resolver uses for every flag family.
    pub fn compile(kind: RuleKind, arg: &String, case_sensitive: bool) -> (r: Result<
        MatchRule,
        String,
    >)
        ensures
            r is Ok <==> compile_model(kind, arg@, case_sensitive) is Some,
            r is Ok ==> r->Ok_0.model() == compile_model(kind, arg@, case_sensitive)->Some_0,
    {
        match kind {
            RuleKind::Exact => Self::new_exact_match(arg, case_sensitive),
            RuleKind::Regex => Self::new_regex_match(arg, case_sensitive, false),
            RuleKind::RegexFullpath => Self::new_regex_match(arg, case_sensitive, true),
            RuleKind::NameGlob => Self::new_glob_match(arg, &GlobTarget::Name),
            RuleKind::PathGlob => Self::new_glob_match(arg, &GlobTarget::Path),
            RuleKind::Substring => Self::new_substr_match(arg, case_sensitive),
            RuleKind::Smart => Self::new_smart_match(arg, case_sensitive),
        }
    }

    /// Evaluates this rule against one entry. Total: an entry whose path
    /// lacks the component the rule looks at yields `false`, never an
    /// error.
    pub fn matches(&self, path: &EntryPath, config: &Config) -> (r: bool)
        ensures
            r == model_matches(
                self.model(),
                path.full@,
                path.spec_name(),
                config.case_sensitive,
                config.glob_options,
            ),
    {
        match self {
            MatchRule::NameGlob(p) => match &path.file_name {
                Some(f) => glob_match_text(p, f.as_str(), &config.glob_options),
                None => false,
            },
            MatchRule::PathGlob(p) => glob_match_text(p, path.full.as_str(), &config.glob_options),
            MatchRule::RegexFullpath(re) => regex_is_match(re, path.full.as_str()),
            MatchRule::Regex(re) => match &path.file_name {
                Some(f) => regex_is_match(re, f.as_str()),
                None => false,
            },
            MatchRule::Exact(target) => match &path.file_name {
                Some(f) => {
                    if config.case_sensitive {
                        str_equal(f.as_str(), target.as_str())
                    } else {
                        let flc = lowercase(f.as_str());
                        str_equal(flc.as_str(), target.as_str())
                    }
                },
                None => false,
            },
            MatchRule::Substring(substr) => match &path.file_name {
                Some(f) => {
                    let hay = if config.case_sensitive {
                        chars_of(f.as_str())
                    } else {
                        let flc = lowercase(f.as_str());
                        chars_of(flc.as_str())
                    };
                    let needle = chars_of(substr.as_str());
                    contains_chars(&hay, &needle)
                },
                None => false,
            },
        }
    }
}

/// Builds the characters of `smart_path_pattern(chars@)`.
fn smart_pattern_chars(chars: &Vec<char>) -> (r: Vec<char>)
    ensures
        r@ == smart_path_pattern(chars@),
{
    let segs = split_on_slash(chars);
    let n = segs.len();
    let last = &segs[n - 1];
    let mut wrapped: Vec<char> = Vec::new();
    wrapped.push('*');
    if last.len() > 0 {
        let mut j: usize = 0;
        while j < last.len()
            invariant
                last@ == segs.deep_view()[segs.deep_view().len() - 1],
                j <= last@.len(),
                wrapped@ == seq!['*'] + last@.take(j as int),
            decreases last@.len() - j,
        {
            wrapped.push(last[j]);
            j = j + 1;
            proof {
                assert(last@.take(j as int) =~= last@.take(j - 1).push(last@[j - 1]));
                assert(wrapped@ =~= seq!['*'] + last@.take(j as int));
            }
        }
        wrapped.push('*');
        proof {
            assert(last@.take(last@.len() as int) =~= last@);
            assert(wrapped@ =~= wrapped_last(segs.deep_view().last()));
        }
    } else {
        proof {
            assert(wrapped@ =~= wrapped_last(segs.deep_view().last()));
        }
    }
    let mut front_src: Vec<Vec<char>> = Vec::new();
    let mut i: usize = 0;
    proof {
        assert(front_src.deep_view() =~~= segs.deep_view().take(0));
    }
    while i < n - 1
        invariant
            n == segs@.len(),
            n >= 1,
            i <= n - 1,
            front_src.deep_view() == segs.deep_view().take(i as int),
        decreases n - 1 - i,
    {
        let ghost prev = front_src.deep_view();
        front_src.push(clone_chars(&segs[i]));
        proof {
            assert(front_src.deep_view() =~~= prev.push(segs.deep_view()[i as int]));
            assert(segs.deep_view().take(i + 1) =~= segs.deep_view().take(i as int).push(
                segs.deep_view()[i as int],
            ));
        }
        i = i + 1;
    }
    proof {
        assert(segs.deep_view().take(n - 1) =~= segs.deep_view().drop_last());
    }
    let front = drop_empty_segments(&front_src);
    let mut parts: Vec<Vec<char>> = Vec::new();
    let mut stars: Vec<char> = Vec::new();
    stars.push('*');
    stars.push('*');
    proof {
        assert(stars@ =~= seq!['*', '*']);
    }
    parts.push(stars);
    let ghost front_dv = front.deep_view();
    let mut k: usize = 0;
    proof {
        assert(parts.deep_view() =~~= seq![seq!['*', '*']] + front_dv.take(0));
    }
    while k < front.len()
        invariant
            front.deep_view() == front_dv,
            k <= front_dv.len(),
            parts.deep_view() == seq![seq!['*', '*']] + front_dv.take(k as int),
        decreases front_dv.len() - k,
    {
        let ghost prev = parts.deep_view();
        parts.push(clone_chars(&front[k]));
        proof {
            assert(parts.deep_view() =~~= prev.push(front_dv[k as int]));
            assert(prev.push(front_dv[k as int]) =~~= seq![seq!['*', '*']] + front_dv.take(k + 1));
        }
        k = k + 1;
    }
    let ghost before_last = parts.deep_view();
    parts.push(wrapped);
    proof {
        assert(front_dv.take(front_dv.len() as int) =~= front_dv);
        assert(parts.deep_view() =~~= before_last.push(wrapped_last(segs.deep_view().last())));
        assert(parts.deep_view() =~~= seq![seq!['*', '*']] + keep_nonempty(
            segs.deep_view().drop_last(),
        ) + seq![wrapped_last(segs.deep_view().last())]);
        assert(segs.deep_view() == split_slash(chars@));
    }
    join_on_slash(&parts)
}

} // verus!
