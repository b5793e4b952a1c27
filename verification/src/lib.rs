//! A file-finding filter engine: raw filter flags are compiled into an
//! immutable set of match rules (`config`, `matching`), and each traversal
//! entry is then judged by the file-type filter and the disjunction of the
//! rules. The traversal itself, and everything else that touches the
//! filesystem, lives outside this crate and hands entries in as plain
//! values.

pub mod config;
pub mod engines;
pub mod matching;
pub mod text;

use vstd::prelude::*;

use crate::config::Config;
use crate::config::Filetype;
use crate::engines::GlobOptions;
use crate::matching::EntryPath;
use crate::matching::RuleModel;
use crate::matching::model_matches;

verus! {

/// Whether an entry passes the file-type stage: no filter passes
/// everything, and an entry whose metadata could not be fetched is not
/// filtered on type.
pub open spec fn filetype_pass(filter: Option<Filetype>, kind: Option<Filetype>) -> bool {
    match filter {
        None => true,
        Some(f) => match kind {
            None => true,
            Some(k) => k == f,
        },
    }
}

/// Whether some rule of the set matches the entry.
pub open spec fn any_rule_matches(
    models: Seq<RuleModel>,
    full: Seq<char>,
    name: Option<Seq<char>>,
    case_sensitive: bool,
    opts: GlobOptions,
) -> bool {
    exists|i: int|
        0 <= i < models.len() && model_matches(models[i], full, name, case_sensitive, opts)
}

/// Whether one traversal entry is shown: it must pass the file-type stage,
/// and then either the rule set is empty (everything matches) or some rule
/// matches it.
pub open spec fn spec_should_show(
    kind: Option<Filetype>,
    full: Seq<char>,
    name: Option<Seq<char>>,
    c: Config,
) -> bool {
    filetype_pass(c.filetype_filter, kind) && (c.rule_models().len() == 0 || any_rule_matches(
        c.rule_models(),
        full,
        name,
        c.case_sensitive,
        c.glob_options,
    ))
}

/// Decides show or skip for one traversal entry, given its file kind (when
/// metadata was obtainable), its path, and the configuration.
pub fn should_show(kind: Option<Filetype>, path: &EntryPath, config: &Config) -> (r: bool)
    ensures
        r == spec_should_show(kind, path.full@, path.spec_name(), *config),
{
    match (&config.filetype_filter, &kind) {
        (Some(filter), Some(k)) => {
            if !(*k == *filter) {
                return false;
            }
        },
        _ => {},
    }
    if config.rules.len() == 0 {
        return true;
    }
    let n = config.rules.len();
    let mut i: usize = 0;
    while i < n
        invariant
            filetype_pass(config.filetype_filter, kind),
            n == config.rules@.len(),
            i <= n,
            forall|k: int|
                0 <= k < i ==> !model_matches(
                    config.rule_models()[k],
                    path.full@,
                    path.spec_name(),
                    config.case_sensitive,
                    config.glob_options,
                ),
        decreases n - i,
    {
        if config.rules[i].matches(path, config) {
            proof {
                assert(config.rule_models()[i as int] == config.rules@[i as int].model());
            }
            return true;
        }
        i = i + 1;
    }
    false
}

/// With no compiled rules and no file-type filter, every entry is shown,
/// whatever its path or metadata: the filter layer is a pass-through when
/// the user supplied no content filters.
pub proof fn lemma_empty_rules_show_all(
    kind: Option<Filetype>,
    full: Seq<char>,
    name: Option<Seq<char>>,
    c: Config,
)
    requires
        c.rules@.len() == 0,
        c.filetype_filter is None,
    ensures
        spec_should_show(kind, full, name, c),
{
    assert(c.rule_models().len() == 0);
}

/// A rule set matches an entry exactly when some rule of it does, so the
/// order in which the rules were declared never changes the outcome: two
/// rule sequences holding the same rules match the same entries.
pub proof fn lemma_rule_order_irrelevant(
    models1: Seq<RuleModel>,
    models2: Seq<RuleModel>,
    full: Seq<char>,
    name: Option<Seq<char>>,
    case_sensitive: bool,
    opts: GlobOptions,
)
    requires
        models1.to_multiset() == models2.to_multiset(),
    ensures
        any_rule_matches(models1, full, name, case_sensitive, opts) == any_rule_matches(
            models2,
            full,
            name,
            case_sensitive,
            opts,
        ),
{
    broadcast use vstd::seq_lib::group_to_multiset_ensures;

    if any_rule_matches(models1, full, name, case_sensitive, opts) {
        let i = choose|i: int|
            0 <= i < models1.len() && model_matches(models1[i], full, name, case_sensitive, opts);
        assert(models1.contains(models1[i]));
        assert(models2.to_multiset().count(models1[i]) > 0);
        assert(models2.contains(models1[i]));
        let j = choose|j: int| 0 <= j < models2.len() && models2[j] == models1[i];
        assert(model_matches(models2[j], full, name, case_sensitive, opts));
    }
    if any_rule_matches(models2, full, name, case_sensitive, opts) {
        let i = choose|i: int|
            0 <= i < models2.len() && model_matches(models2[i], full, name, case_sensitive, opts);
        assert(models2.contains(models2[i]));
        assert(models1.to_multiset().count(models2[i]) > 0);
        assert(models1.contains(models2[i]));
        let j = choose|j: int| 0 <= j < models1.len() && models1[j] == models2[i];
        assert(model_matches(models1[j], full, name, case_sensitive, opts));
    }
}

} // verus!
