//! The resolved, immutable configuration of one run: global options plus the
//! compiled rule set, built once from the raw flag values before any entry
//! is examined. All validation happens here; every failure is collected and
//! reported in one aggregated message, and a `Config` is only built when
//! nothing failed.

use vstd::prelude::*;
use vstd::string::StrSliceExecFns;
use vstd::string::StringExecFns;

use crate::engines::GlobOptions;
use crate::engines::regex_syntax_ok;
use crate::matching::MatchRule;
use crate::matching::RuleKind;
use crate::matching::RuleModel;
use crate::matching::compile_model;
use crate::text::chars_of;
use crate::text::is_substring_of;
use crate::text::join_strings;
use crate::text::join_with;
use crate::text::lemma_concat_contains;
use crate::text::lemma_join_contains_part;
use crate::text::lemma_substring_extend_left;
use crate::text::lemma_substring_extend_right;
use crate::text::lemma_substring_self;
use crate::text::lemma_substring_trans;

verus! {

/// Kinds of filesystem entry a traversal can report, used by the
/// file-type filter (`-t` flag).
#[derive(Clone, Copy, Debug, PartialEq, Eq, Structural)]
pub enum Filetype {
    BlockSpecial,
    CharacterSpecial,
    Directory,
    RegularFile,
    SymbolicLink,
    FIFO,
    Socket,
}

/// The characters of an optional flag value.
pub open spec fn opt_text(o: Option<String>) -> Option<Seq<char>> {
    match o {
        Some(s) => Some(s@),
        None => None,
    }
}

/// Whether `c` is an ASCII decimal digit.
pub open spec fn is_digit(c: char) -> bool {
    48 <= c as u32 && c as u32 <= 57
}

/// The value of one ASCII decimal digit.
pub open spec fn digit_val(c: char) -> nat {
    (c as u32 - 48) as nat
}

/// The value of a run of ASCII decimal digits, most significant first.
pub open spec fn digits_value(s: Seq<char>) -> nat
    decreases s.len(),
{
    if s.len() == 0 {
        0
    } else {
        digits_value(s.drop_last()) * 10 + digit_val(s.last())
    }
}

/// Whether every character of `s` is an ASCII decimal digit.
pub open spec fn all_digits(s: Seq<char>) -> bool {
    forall|i: int| 0 <= i < s.len() ==> is_digit(s[i])
}

/// `s` with one leading `+` sign removed, as the integer parser sees it.
pub open spec fn unsigned_part(s: Seq<char>) -> Seq<char> {
    if s.len() > 0 && s[0] == '+' {
        s.drop_first()
    } else {
        s
    }
}

/// Whether `s` is a decimal numeral (an optional `+`, then at least one
/// digit) whose value fits in `usize`.
pub open spec fn valid_usize_text(s: Seq<char>) -> bool {
    let d = unsigned_part(s);
    d.len() > 0 && all_digits(d) && digits_value(d) <= usize::MAX
}

/// Why a numeral was rejected.
#[derive(Clone, Copy, Debug, PartialEq, Eq, Structural)]
pub enum ParseUsizeError {
    Empty,
    InvalidDigit,
    Overflow,
}

/// The error `parse_usize` reports for an invalid numeral: an empty text,
/// then a missing or malformed digit, then a value too large.
pub open spec fn spec_parse_error(s: Seq<char>) -> ParseUsizeError {
    if s.len() == 0 {
        ParseUsizeError::Empty
    } else if unsigned_part(s).len() == 0 || !all_digits(unsigned_part(s)) {
        ParseUsizeError::InvalidDigit
    } else {
        ParseUsizeError::Overflow
    }
}

impl ParseUsizeError {
    /// The reason as text.
    pub open spec fn spec_message(&self) -> Seq<char> {
        match self {
            ParseUsizeError::Empty => "cannot parse integer from empty string"@,
            ParseUsizeError::InvalidDigit => "invalid digit found in string"@,
            ParseUsizeError::Overflow => "number too large to fit in target type"@,
        }
    }

    /// The reason as text.
    pub fn message(&self) -> (r: String)
        ensures
            r@ == self.spec_message(),
    {
        match self {
            ParseUsizeError::Empty => "cannot parse integer from empty string".to_owned(),
            ParseUsizeError::InvalidDigit => "invalid digit found in string".to_owned(),
            ParseUsizeError::Overflow => "number too large to fit in target type".to_owned(),
        }
    }
}

/// A longer run of digits never has a smaller value: the value of a prefix
/// bounds the value of the whole run from below.
proof fn lemma_digits_value_mono(s: Seq<char>, i: int)
    requires
        0 <= i <= s.len(),
    ensures
        digits_value(s.take(i)) <= digits_value(s),
    decreases s.len(),
{
    if i < s.len() {
        let s2 = s.drop_last();
        assert(s2.take(i) =~= s.take(i));
        lemma_digits_value_mono(s2, i);
    } else {
        assert(s.take(i) =~= s);
    }
}

/// Parses an ASCII decimal numeral (an optional `+`, then at least one
/// digit). Succeeds exactly on numerals whose value fits in `usize`, and
/// classifies every failure.
pub fn parse_usize(s: &str) -> (r: Result<usize, ParseUsizeError>)
    ensures
        r is Ok <==> valid_usize_text(s@),
        r is Ok ==> r->Ok_0 as nat == digits_value(unsigned_part(s@)),
        r is Err ==> r->Err_0 == spec_parse_error(s@),
{
    let chars = chars_of(s);
    let n = chars.len();
    if n == 0 {
        return Err(ParseUsizeError::Empty);
    }
    let start: usize = if chars[0] == '+' {
        1
    } else {
        0
    };
    let ghost digits = unsigned_part(s@);
    proof {
        assert(chars@.skip(start as int) =~= digits);
    }
    if start == n {
        return Err(ParseUsizeError::InvalidDigit);
    }
    let mut i: usize = start;
    while i < n
        invariant
            chars@ == s@,
            n == chars@.len(),
            1 <= n,
            start < n,
            start <= i <= n,
            digits == unsigned_part(s@),
            digits == chars@.skip(start as int),
            forall|k: int| start <= k < i ==> is_digit(chars@[k]),
        decreases n - i,
    {
        let u = chars[i] as u32;
        if u < 48 || u > 57 {
            proof {
                assert(digits[i - start] == chars@[i as int]);
                assert(!all_digits(digits));
            }
            return Err(ParseUsizeError::InvalidDigit);
        }
        i = i + 1;
    }
    proof {
        assert(forall|k: int| 0 <= k < digits.len() ==> digits[k] == chars@[start + k]);
        assert(all_digits(digits));
    }
    let mut acc: usize = 0;
    let mut j: usize = start;
    while j < n
        invariant
            chars@ == s@,
            n == chars@.len(),
            1 <= n,
            start < n,
            start <= j <= n,
            digits == unsigned_part(s@),
            digits == chars@.skip(start as int),
            all_digits(digits),
            forall|k: int| start <= k < n ==> is_digit(chars@[k]),
            acc as nat == digits_value(digits.take(j - start)),
        decreases n - j,
    {
        let d = (chars[j] as u32 - 48) as usize;
        let wide = (acc as u128) * 10 + (d as u128);
        proof {
            let p = digits.take(j - start + 1);
            assert(p.drop_last() =~= digits.take(j - start));
            assert(p.last() == digits[j - start]);
            assert(digits[j - start] == chars@[j as int]);
            assert(digits_value(p) == digits_value(digits.take(j - start)) * 10 + digit_val(
                chars@[j as int],
            ));
        }
        if wide > (usize::MAX as u128) {
            proof {
                lemma_digits_value_mono(digits, j - start + 1);
            }
            return Err(ParseUsizeError::Overflow);
        }
        acc = wide as usize;
        j = j + 1;
    }
    proof {
        assert(digits.take(n - start) =~= digits);
    }
    Ok(acc)
}

/// The maximum-depth flag parsed: absent stays absent, a numeral becomes
/// its value.
pub open spec fn spec_max_depth(flag: Option<Seq<char>>) -> Option<usize> {
    match flag {
        None => None,
        Some(s) => Some(digits_value(unsigned_part(s)) as usize),
    }
}

/// Whether the maximum-depth flag is acceptable: absent, or a numeral
/// whose value fits.
pub open spec fn max_depth_ok(flag: Option<Seq<char>>) -> bool {
    match flag {
        None => true,
        Some(s) => valid_usize_text(s),
    }
}

/// The file-type filter a single-letter flag value names.
pub open spec fn spec_filetype(s: Seq<char>) -> Option<Filetype> {
    if s == seq!['b'] {
        Some(Filetype::BlockSpecial)
    } else if s == seq!['c'] {
        Some(Filetype::CharacterSpecial)
    } else if s == seq!['d'] {
        Some(Filetype::Directory)
    } else if s == seq!['f'] {
        Some(Filetype::RegularFile)
    } else if s == seq!['l'] {
        Some(Filetype::SymbolicLink)
    } else if s == seq!['p'] {
        Some(Filetype::FIFO)
    } else if s == seq!['s'] {
        Some(Filetype::Socket)
    } else {
        None
    }
}

/// Whether the file-type flag is acceptable: absent, or one of the seven
/// known letters.
pub open spec fn filetype_ok(flag: Option<Seq<char>>) -> bool {
    match flag {
        None => true,
        Some(s) => spec_filetype(s) is Some,
    }
}

/// The file-type filter the flag resolves to.
pub open spec fn spec_filetype_filter(flag: Option<Seq<char>>) -> Option<Filetype> {
    match flag {
        None => None,
        Some(s) => spec_filetype(s),
    }
}

/// Resolves the file-type flag: absent is no filter, a known letter is its
/// file type, and anything else is an error naming the rejected value.
pub fn flag_to_filetype(flag: &Option<String>) -> (r: Result<Option<Filetype>, String>)
    ensures
        r is Ok <==> filetype_ok(opt_text(*flag)),
        r is Ok ==> r->Ok_0 == spec_filetype_filter(opt_text(*flag)),
        r is Err ==> r->Err_0@ == "Unknown filetype "@ + opt_text(*flag)->Some_0,
{
    match flag {
        None => Ok(None),
        Some(letter) => {
            let found: Option<Filetype> = if letter.as_str().unicode_len() == 1 {
                let c = letter.as_str().get_char(0);
                proof {
                    assert(letter@ =~= seq![c]);
                }
                match c {
                    'b' => Some(Filetype::BlockSpecial),
                    'c' => Some(Filetype::CharacterSpecial),
                    'd' => Some(Filetype::Directory),
                    'f' => Some(Filetype::RegularFile),
                    'l' => Some(Filetype::SymbolicLink),
                    'p' => Some(Filetype::FIFO),
                    's' => Some(Filetype::Socket),
                    _ => {
                        proof {
                            assert(c != 'b' && letter@ == seq![c]);
                            assert(letter@ != seq!['b']);
                        }
                        None
                    },
                }
            } else {
                None
            };
            match found {
                Some(t) => Ok(Some(t)),
                None => {
                    let mut m = "Unknown filetype ".to_owned();
                    m.append(letter.as_str());
                    Err(m)
                },
            }
        },
    }
}

/// Resolves the maximum-depth flag: absent is no bound, a numeral is its
/// value, and anything else is the parse error.
pub fn flag_to_usize(flag: &Option<String>) -> (r: Result<Option<usize>, ParseUsizeError>)
    ensures
        r is Ok <==> max_depth_ok(opt_text(*flag)),
        r is Ok ==> r->Ok_0 == spec_max_depth(opt_text(*flag)),
        r is Err ==> r->Err_0 == spec_parse_error(opt_text(*flag)->Some_0),
{
    match flag {
        None => Ok(None),
        Some(number) => match parse_usize(number.as_str()) {
            Ok(v) => Ok(Some(v)),
            Err(e) => Err(e),
        },
    }
}

/// The rules the arguments of one flag family compile to, in order,
/// skipping the arguments whose pattern is invalid.
pub open spec fn compiled_of(kind: RuleKind, args: Seq<Seq<char>>, case_sensitive: bool) -> Seq<
    RuleModel,
>
    decreases args.len(),
{
    if args.len() == 0 {
        Seq::empty()
    } else {
        let rest = compiled_of(kind, args.drop_last(), case_sensitive);
        match compile_model(kind, args.last(), case_sensitive) {
            Some(m) => rest.push(m),
            None => rest,
        }
    }
}

/// The raw arguments of one flag family whose pattern is invalid, in order.
pub open spec fn failed_of(kind: RuleKind, args: Seq<Seq<char>>, case_sensitive: bool) -> Seq<
    Seq<char>,
>
    decreases args.len(),
{
    if args.len() == 0 {
        Seq::empty()
    } else {
        let rest = failed_of(kind, args.drop_last(), case_sensitive);
        if compile_model(kind, args.last(), case_sensitive) is Some {
            rest
        } else {
            rest.push(args.last())
        }
    }
}

/// Compiles every argument of one flag family, appending the compiled
/// rules and collecting the raw text of every argument that failed.
fn compile_family(
    kind: RuleKind,
    args: &Vec<String>,
    case_sensitive: bool,
    rules: &mut Vec<MatchRule>,
    failures: &mut Vec<String>,
)
    ensures
        final(rules)@.map_values(|r: MatchRule| r.model()) == old(rules)@.map_values(
            |r: MatchRule| r.model(),
        ) + compiled_of(kind, args.deep_view(), case_sensitive),
        final(failures).deep_view() == old(failures).deep_view() + failed_of(
            kind,
            args.deep_view(),
            case_sensitive,
        ),
{
    let ghost base_rules = rules@.map_values(|r: MatchRule| r.model());
    let ghost base_failures = failures.deep_view();
    let mut i: usize = 0;
    proof {
        assert(rules@.map_values(|r: MatchRule| r.model()) =~= base_rules + compiled_of(
            kind,
            args.deep_view().take(0),
            case_sensitive,
        ));
        assert(failures.deep_view() =~~= base_failures + failed_of(
            kind,
            args.deep_view().take(0),
            case_sensitive,
        ));
    }
    while i < args.len()
        invariant
            i <= args@.len(),
            rules@.map_values(|r: MatchRule| r.model()) == base_rules + compiled_of(
                kind,
                args.deep_view().take(i as int),
                case_sensitive,
            ),
            failures.deep_view() == base_failures + failed_of(
                kind,
                args.deep_view().take(i as int),
                case_sensitive,
            ),
        decreases args@.len() - i,
    {
        let ghost prev_rules = rules@.map_values(|r: MatchRule| r.model());
        let ghost prev_failures = failures.deep_view();
        proof {
            assert(args.deep_view().take(i + 1).drop_last() =~= args.deep_view().take(i as int));
            assert(args.deep_view().take(i + 1).last() == args@[i as int]@);
        }
        match MatchRule::compile(kind, &args[i], case_sensitive) {
            Ok(rule) => {
                let ghost m = rule.model();
                rules.push(rule);
                proof {
                    assert(rules@.map_values(|r: MatchRule| r.model()) =~= prev_rules.push(m));
                    assert(prev_rules.push(m) =~= base_rules + compiled_of(
                        kind,
                        args.deep_view().take(i + 1),
                        case_sensitive,
                    ));
                }
            },
            Err(_) => {
                failures.push(args[i].clone());
                proof {
                    assert(failures.deep_view() =~~= prev_failures.push(args@[i as int]@));
                    assert(prev_failures.push(args@[i as int]@) =~~= base_failures + failed_of(
                        kind,
                        args.deep_view().take(i + 1),
                        case_sensitive,
                    ));
                }
            },
        }
        i = i + 1;
    }
    proof {
        assert(args.deep_view().take(args@.len() as int) =~= args.deep_view());
    }
}

/// The raw values of every flag the configuration is resolved from, as the
/// command line hands them over: one list of raw strings per filter-flag
/// family, in the order supplied.
pub struct RawOptions {
    pub case_sensitive: bool,
    pub all: bool,
    pub filetype: Option<String>,
    pub max_depth: Option<String>,
    pub exact: Vec<String>,
    pub regex: Vec<String>,
    pub regex_full: Vec<String>,
    pub name: Vec<String>,
    pub path: Vec<String>,
    pub substring: Vec<String>,
    pub free: Vec<String>,
}

/// The mathematical content of `RawOptions`.
pub ghost struct OptionsModel {
    pub case_sensitive: bool,
    pub all: bool,
    pub filetype: Option<Seq<char>>,
    pub max_depth: Option<Seq<char>>,
    pub exact: Seq<Seq<char>>,
    pub regex: Seq<Seq<char>>,
    pub regex_full: Seq<Seq<char>>,
    pub name: Seq<Seq<char>>,
    pub path: Seq<Seq<char>>,
    pub substring: Seq<Seq<char>>,
    pub free: Seq<Seq<char>>,
}

impl View for RawOptions {
    type V = OptionsModel;

    open spec fn view(&self) -> OptionsModel {
        OptionsModel {
            case_sensitive: self.case_sensitive,
            all: self.all,
            filetype: opt_text(self.filetype),
            max_depth: opt_text(self.max_depth),
            exact: self.exact.deep_view(),
            regex: self.regex.deep_view(),
            regex_full: self.regex_full.deep_view(),
            name: self.name.deep_view(),
            path: self.path.deep_view(),
            substring: self.substring.deep_view(),
            free: self.free.deep_view(),
        }
    }
}

/// Every rule the flag families resolve to, in family order (exact, regex,
/// full-path regex, name glob, path glob, substring, free-form) and, within
/// a family, in the order supplied.
pub open spec fn resolved_rules(o: OptionsModel) -> Seq<RuleModel> {
    compiled_of(RuleKind::Exact, o.exact, o.case_sensitive) + compiled_of(
        RuleKind::Regex,
        o.regex,
        o.case_sensitive,
    ) + compiled_of(RuleKind::RegexFullpath, o.regex_full, o.case_sensitive) + compiled_of(
        RuleKind::NameGlob,
        o.name,
        o.case_sensitive,
    ) + compiled_of(RuleKind::PathGlob, o.path, o.case_sensitive) + compiled_of(
        RuleKind::Substring,
        o.substring,
        o.case_sensitive,
    ) + compiled_of(RuleKind::Smart, o.free, o.case_sensitive)
}

/// The raw text of every filter argument that failed to compile, in the
/// same order as `resolved_rules` walks the families.
pub open spec fn failed_rule_args(o: OptionsModel) -> Seq<Seq<char>> {
    failed_of(RuleKind::Exact, o.exact, o.case_sensitive) + failed_of(
        RuleKind::Regex,
        o.regex,
        o.case_sensitive,
    ) + failed_of(RuleKind::RegexFullpath, o.regex_full, o.case_sensitive) + failed_of(
        RuleKind::NameGlob,
        o.name,
        o.case_sensitive,
    ) + failed_of(RuleKind::PathGlob, o.path, o.case_sensitive) + failed_of(
        RuleKind::Substring,
        o.substring,
        o.case_sensitive,
    ) + failed_of(RuleKind::Smart, o.free, o.case_sensitive)
}

/// Whether resolution succeeds: every filter compiles, the file-type letter
/// is known, and the maximum depth is a numeral that fits.
pub open spec fn resolve_ok(o: OptionsModel) -> bool {
    failed_rule_args(o).len() == 0 && filetype_ok(o.filetype) && max_depth_ok(o.max_depth)
}

/// The individual failure reports resolution collects, in order: the
/// uncompilable filters (joined into one report), then the unknown
/// file-type letter, then the malformed maximum depth.
pub open spec fn error_items(o: OptionsModel) -> Seq<Seq<char>> {
    let rules_part: Seq<Seq<char>> = if failed_rule_args(o).len() > 0 {
        seq!["unable to parse matching rules: "@ + join_with(failed_rule_args(o), ", "@)]
    } else {
        Seq::empty()
    };
    let ft_part: Seq<Seq<char>> = if !filetype_ok(o.filetype) {
        seq!["Unknown filetype "@ + o.filetype->Some_0]
    } else {
        Seq::empty()
    };
    let depth_part: Seq<Seq<char>> = if !max_depth_ok(o.max_depth) {
        seq![
            "unable to parse maxdepth argument: "@ + o.max_depth->Some_0 + ": "@ + spec_parse_error(
                o.max_depth->Some_0,
            ).spec_message(),
        ]
    } else {
        Seq::empty()
    };
    rules_part + ft_part + depth_part
}

/// The one aggregated message resolution reports when anything failed.
pub open spec fn resolve_error_text(o: OptionsModel) -> Seq<char> {
    join_with(error_items(o), "; "@)
}

/// The glob options one run matches with: the case policy, with path
/// separators always literal and leading dots never literal.
pub open spec fn default_glob_options(case_sensitive: bool) -> GlobOptions {
    GlobOptions {
        case_sensitive: case_sensitive,
        require_literal_separator: true,
        require_literal_leading_dot: false,
    }
}

/// The resolved configuration of one run. Built once by `Config::new`;
/// read-only afterwards. When `rules` is empty every entry matches.
pub struct Config {
    pub all: bool,
    pub case_sensitive: bool,
    pub filetype_filter: Option<Filetype>,
    pub glob_options: GlobOptions,
    pub max_depth: Option<usize>,
    pub rules: Vec<MatchRule>,
}

impl Config {
    /// The models of the compiled rules, in order.
    pub open spec fn rule_models(&self) -> Seq<RuleModel> {
        self.rules@.map_values(|r: MatchRule| r.model())
    }

    /// Resolves the raw flag values into one immutable configuration.
    ///
    /// Every filter argument is compiled, and the file-type and
    /// maximum-depth flags validated, before anything is reported: all
    /// failures of one resolution are joined into a single aggregated
    /// message, and a configuration is built exactly when nothing failed.
    pub fn new(opts: &RawOptions) -> (r: Result<Config, String>)
        ensures
            r is Ok <==> resolve_ok(opts@),
            r is Ok ==> r->Ok_0.all == opts.all,
            r is Ok ==> r->Ok_0.case_sensitive == opts.case_sensitive,
            r is Ok ==> r->Ok_0.glob_options == default_glob_options(opts.case_sensitive),
            r is Ok ==> r->Ok_0.filetype_filter == spec_filetype_filter(opts@.filetype),
            r is Ok ==> r->Ok_0.max_depth == spec_max_depth(opts@.max_depth),
            r is Ok ==> r->Ok_0.rule_models() == resolved_rules(opts@),
            r is Err ==> r->Err_0@ == resolve_error_text(opts@),
    {
        let case_sensitive = opts.case_sensitive;
        let mut rules: Vec<MatchRule> = Vec::new();
        let mut failures: Vec<String> = Vec::new();
        compile_family(RuleKind::Exact, &opts.exact, case_sensitive, &mut rules, &mut failures);
        compile_family(RuleKind::Regex, &opts.regex, case_sensitive, &mut rules, &mut failures);
        compile_family(
            RuleKind::RegexFullpath,
            &opts.regex_full,
            case_sensitive,
            &mut rules,
            &mut failures,
        );
        compile_family(RuleKind::NameGlob, &opts.name, case_sensitive, &mut rules, &mut failures);
        compile_family(RuleKind::PathGlob, &opts.path, case_sensitive, &mut rules, &mut failures);
        compile_family(
            RuleKind::Substring,
            &opts.substring,
            case_sensitive,
            &mut rules,
            &mut failures,
        );
        compile_family(RuleKind::Smart, &opts.free, case_sensitive, &mut rules, &mut failures);
        proof {
            assert(rules@.map_values(|r: MatchRule| r.model()) =~= resolved_rules(opts@));
            assert(failures.deep_view() =~~= failed_rule_args(opts@));
        }
        let ft = flag_to_filetype(&opts.filetype);
        let md = flag_to_usize(&opts.max_depth);
        let mut errors: Vec<String> = Vec::new();
        if failures.len() > 0 {
            let joined = join_strings(&failures, ", ");
            let mut m = "unable to parse matching rules: ".to_owned();
            m.append(joined.as_str());
            errors.push(m);
        }
        let ghost after_rules = errors.deep_view();
        proof {
            assert(after_rules =~~= (if failed_rule_args(opts@).len() > 0 {
                seq!["unable to parse matching rules: "@ + join_with(failed_rule_args(opts@), ", "@)]
            } else {
                Seq::<Seq<char>>::empty()
            }));
        }
        match &ft {
            Ok(_) => {},
            Err(e) => {
                errors.push(e.clone());
            },
        }
        let ghost after_ft = errors.deep_view();
        proof {
            assert(after_ft =~~= after_rules + (if !filetype_ok(opts@.filetype) {
                seq!["Unknown filetype "@ + opts@.filetype->Some_0]
            } else {
                Seq::<Seq<char>>::empty()
            }));
        }
        match (&md, &opts.max_depth) {
            (Err(e), Some(raw)) => {
                let mut m = "unable to parse maxdepth argument: ".to_owned();
                m.append(raw.as_str());
                m.append(": ");
                let reason = e.message();
                m.append(reason.as_str());
                errors.push(m);
            },
            _ => {},
        }
        proof {
            assert(errors.deep_view() =~~= after_ft + (if !max_depth_ok(opts@.max_depth) {
                seq![
                    "unable to parse maxdepth argument: "@ + opts@.max_depth->Some_0 + ": "@
                        + spec_parse_error(opts@.max_depth->Some_0).spec_message(),
                ]
            } else {
                Seq::<Seq<char>>::empty()
            }));
            assert(errors.deep_view() =~~= error_items(opts@));
        }
        if errors.len() > 0 {
            let msg = join_strings(&errors, "; ");
            return Err(msg);
        }
        let filetype_filter = match ft {
            Ok(v) => v,
            Err(_) => None,
        };
        let max_depth = match md {
            Ok(v) => v,
            Err(_) => None,
        };
        Ok(
            Config {
                all: opts.all,
                case_sensitive,
                filetype_filter,
                glob_options: GlobOptions {
                    case_sensitive,
                    require_literal_separator: true,
                    require_literal_leading_dot: false,
                },
                max_depth,
                rules,
            },
        )
    }
}

/// Two malformed regex filters and one malformed maximum-depth value yield
/// one single aggregated failure whose message mentions all three failing
/// inputs, and no configuration is built.
pub proof fn lemma_aggregated_errors(o: OptionsModel, r1: Seq<char>, r2: Seq<char>, d: Seq<char>)
    requires
        o.regex == seq![r1, r2],
        !regex_syntax_ok(r1, !o.case_sensitive),
        !regex_syntax_ok(r2, !o.case_sensitive),
        o.max_depth == Some(d),
        !valid_usize_text(d),
    ensures
        !resolve_ok(o),
        is_substring_of(r1, resolve_error_text(o)),
        is_substring_of(r2, resolve_error_text(o)),
        is_substring_of(d, resolve_error_text(o)),
{
    let cs = o.case_sensitive;
    let fr = failed_of(RuleKind::Regex, o.regex, cs);
    assert(o.regex.drop_last() =~= seq![r1]);
    assert(seq![r1].drop_last() =~= Seq::<Seq<char>>::empty());
    assert(compile_model(RuleKind::Regex, r1, cs) is None);
    assert(compile_model(RuleKind::Regex, r2, cs) is None);
    assert(failed_of(RuleKind::Regex, Seq::<Seq<char>>::empty(), cs) =~= Seq::<Seq<char>>::empty());
    assert(failed_of(RuleKind::Regex, seq![r1], cs) =~= seq![r1]);
    assert(fr =~= seq![r1, r2]);
    assert(fr.contains(r1) && fr.contains(r2));
    let fa = failed_of(RuleKind::Exact, o.exact, cs);
    let g3 = failed_of(RuleKind::RegexFullpath, o.regex_full, cs);
    let g4 = failed_of(RuleKind::NameGlob, o.name, cs);
    let g5 = failed_of(RuleKind::PathGlob, o.path, cs);
    let g6 = failed_of(RuleKind::Substring, o.substring, cs);
    let g7 = failed_of(RuleKind::Smart, o.free, cs);
    let f = failed_rule_args(o);
    assert(f == fa + fr + g3 + g4 + g5 + g6 + g7);
    lemma_concat_contains(fa, fr, r1);
    lemma_concat_contains(fa + fr, g3, r1);
    lemma_concat_contains(fa + fr + g3, g4, r1);
    lemma_concat_contains(fa + fr + g3 + g4, g5, r1);
    lemma_concat_contains(fa + fr + g3 + g4 + g5, g6, r1);
    lemma_concat_contains(fa + fr + g3 + g4 + g5 + g6, g7, r1);
    lemma_concat_contains(fa, fr, r2);
    lemma_concat_contains(fa + fr, g3, r2);
    lemma_concat_contains(fa + fr + g3, g4, r2);
    lemma_concat_contains(fa + fr + g3 + g4, g5, r2);
    lemma_concat_contains(fa + fr + g3 + g4 + g5, g6, r2);
    lemma_concat_contains(fa + fr + g3 + g4 + g5 + g6, g7, r2);
    assert(f.contains(r1) && f.contains(r2));
    assert(f.len() > 0);
    let joined = join_with(f, ", "@);
    lemma_join_contains_part(f, ", "@, r1);
    lemma_join_contains_part(f, ", "@, r2);
    let rules_msg = "unable to parse matching rules: "@ + joined;
    lemma_substring_extend_left(r1, "unable to parse matching rules: "@, joined);
    lemma_substring_extend_left(r2, "unable to parse matching rules: "@, joined);
    let depth_msg = "unable to parse maxdepth argument: "@ + d + ": "@ + spec_parse_error(
        d,
    ).spec_message();
    lemma_substring_self(d);
    lemma_substring_extend_left(d, "unable to parse maxdepth argument: "@, d);
    lemma_substring_extend_right(d, "unable to parse maxdepth argument: "@ + d, ": "@);
    lemma_substring_extend_right(
        d,
        "unable to parse maxdepth argument: "@ + d + ": "@,
        spec_parse_error(d).spec_message(),
    );
    let items = error_items(o);
    assert(items[0] == rules_msg);
    assert(items[items.len() - 1] == depth_msg);
    assert(items.contains(rules_msg) && items.contains(depth_msg));
    lemma_join_contains_part(items, "; "@, rules_msg);
    lemma_join_contains_part(items, "; "@, depth_msg);
    lemma_substring_trans(r1, rules_msg, resolve_error_text(o));
    lemma_substring_trans(r2, rules_msg, resolve_error_text(o));
    lemma_substring_trans(d, depth_msg, resolve_error_text(o));
}

} // verus!
