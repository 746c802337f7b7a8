//! The `arguments` section of a version JSON, and rule evaluation.

use vstd::prelude::*;

verus! {

/// The `arguments` section (1.13+ format): game and JVM argument lists.
#[derive(Debug, Clone)]
pub struct Arguments {
    pub game: Vec<Argument>,
    pub jvm: Vec<Argument>,
}

impl Arguments {
    /// Empty argument lists.
    pub fn empty() -> (a: Arguments)
        ensures
            a.game@.len() == 0,
            a.jvm@.len() == 0,
    {
        Arguments { game: Vec::new(), jvm: Vec::new() }
    }
}

/// One entry of an argument list: a plain string, or a value guarded by rules.
#[derive(Debug, Clone)]
pub enum Argument {
    Plain(String),
    Conditional { rules: Vec<Rule>, value: ArgumentValue },
}

/// The value of a conditional argument.
#[derive(Debug, Clone)]
pub enum ArgumentValue {
    Single(String),
    Multi(Vec<String>),
}

/// An applicability rule, shared by libraries and arguments.
/// `features` is a list of `(name, required value)` pairs.
#[derive(Debug, Clone)]
pub struct Rule {
    pub action: RuleAction,
    pub os: Option<OsCondition>,
    pub features: Option<Vec<(String, bool)>>,
}

/// What a matching rule decides.
#[derive(Debug, Clone, Copy, PartialEq, Eq, Structural)]
pub enum RuleAction {
    Allow,
    Disallow,
}

/// The operating-system condition of a rule.
#[derive(Debug, Clone)]
pub struct OsCondition {
    pub name: Option<OsName>,
    pub arch: Option<String>,
    /// Kernel version pattern; never evaluated.
    pub version: Option<String>,
}

/// Operating systems, as Mojang names them.
#[derive(Debug, Clone, Copy, PartialEq, Eq, Structural)]
pub enum OsName {
    Linux,
    Windows,
    Osx,
}

/// The OS that `std::env::consts::OS` names (`"windows"`, `"macos"`, others).
pub open spec fn os_name_of(os: Seq<char>) -> OsName {
    if os == "windows"@ {
        OsName::Windows
    } else if os == "macos"@ {
        OsName::Osx
    } else {
        OsName::Linux
    }
}

impl OsName {
    /// The OS of the platform whose `std::env::consts::OS` is `os`.
    pub fn from_platform(os: &str) -> (n: OsName)
        ensures
            n == os_name_of(os@),
    {
        if crate::text::str_eq(os, "windows") {
            OsName::Windows
        } else if crate::text::str_eq(os, "macos") {
            OsName::Osx
        } else {
            OsName::Linux
        }
    }
}

/// Evaluation context: the running OS and the launch features.
#[derive(Debug, Clone)]
pub struct EvalContext {
    pub os: OsContext,
    pub features: Vec<(String, bool)>,
}

/// The running OS.
#[derive(Debug, Clone)]
pub struct OsContext {
    pub name: OsName,
    pub arch: String,
    pub version: String,
}

impl OsContext {
    /// A copy of this context.
    pub fn clone_exact(&self) -> (c: OsContext)
        ensures
            c == *self,
    {
        OsContext { name: self.name, arch: self.arch.clone(), version: self.version.clone() }
    }
}

/// The value of feature `key` in `features`: that of its first entry, `false` when absent.
pub open spec fn feature_value(features: Seq<(String, bool)>, key: Seq<char>) -> bool
    decreases features.len(),
{
    if features.len() == 0 {
        false
    } else if features[0].0@ == key {
        features[0].1
    } else {
        feature_value(features.drop_first(), key)
    }
}

/// The conditions of `rule` hold in `ctx` (its action aside).
pub open spec fn rule_matches(rule: Rule, ctx: EvalContext) -> bool {
    &&& match rule.os {
        Some(os) => {
            &&& (os.name matches Some(n) ==> n == ctx.os.name)
            &&& (os.arch matches Some(a) ==> a@ == ctx.os.arch@)
        },
        None => true,
    }
    &&& match rule.features {
        Some(fs) => forall|i: int|
            0 <= i < fs@.len() ==> feature_value(ctx.features@, #[trigger] fs@[i].0@) == fs@[i].1,
        None => true,
    }
}

/// Folds the rules left to right: a matching rule sets the verdict to its action.
pub open spec fn fold_allow(rules: Seq<Rule>, ctx: EvalContext, init: bool) -> bool
    decreases rules.len(),
{
    if rules.len() == 0 {
        init
    } else {
        let prev = fold_allow(rules.drop_last(), ctx, init);
        if rule_matches(rules.last(), ctx) {
            rules.last().action == RuleAction::Allow
        } else {
            prev
        }
    }
}

/// The verdict of a rule list: allowed when empty, otherwise decided by the
/// last matching rule, and refused when none matches.
pub open spec fn rules_allow_spec(rules: Seq<Rule>, ctx: EvalContext) -> bool {
    fold_allow(rules, ctx, rules.len() == 0)
}

/// The features of a launch context form a map: no name occurs twice.
pub open spec fn context_ok(ctx: EvalContext) -> bool {
    crate::text::keys_distinct(ctx.features@)
}

proof fn lemma_feature_update(fs: Seq<(String, bool)>, i: int, key: Seq<char>, entry: (String, bool))
    requires
        0 <= i < fs.len(),
        forall|j: int| 0 <= j < i ==> (#[trigger] fs[j]).0@ != key,
        fs[i].0@ == key,
        entry.0@ == key,
    ensures
        feature_value(fs.update(i, entry), key) == entry.1,
        forall|k: Seq<char>| k != key ==> #[trigger] feature_value(fs.update(i, entry), k) == feature_value(fs, k),
    decreases i,
{
    let u = fs.update(i, entry);
    let t = fs.drop_first();
    if i == 0 {
        assert(u.drop_first() == t);
        assert forall|k: Seq<char>| k != key implies #[trigger] feature_value(u, k) == feature_value(fs, k) by {
            assert(u[0] == entry);
        }
    } else {
        assert(u.drop_first() == t.update(i - 1, entry));
        assert forall|j: int| 0 <= j < i - 1 implies (#[trigger] t[j]).0@ != key by {
            assert(t[j] == fs[j + 1]);
        }
        lemma_feature_update(t, i - 1, key, entry);
        assert(u[0] == fs[0]);
        assert forall|k: Seq<char>| k != key implies #[trigger] feature_value(u, k) == feature_value(fs, k) by {
            if fs[0].0@ != k {
                assert(feature_value(u.drop_first(), k) == feature_value(t, k));
            }
        }
    }
}

impl EvalContext {
    /// This context with feature `key` set to `on`: an entry of that name
    /// takes the new value in place, else one is added in front
    /// (`HashMap::insert`).
    pub fn with_feature(self, key: &str, on: bool) -> (c: EvalContext)
        ensures
            c.os == self.os,
            feature_value(c.features@, key@) == on,
            forall|k: Seq<char>| k != key@ ==> feature_value(c.features@, k) == feature_value(self.features@, k),
            context_ok(self) ==> context_ok(c),
    {
        let mut c = self;
        let ghost f0 = c.features@;
        let mut i: usize = 0;
        while i < c.features.len()
            invariant
                i <= c.features@.len(),
                c.features@ == f0,
                c.os == self.os,
                f0 == self.features@,
                forall|j: int| 0 <= j < i ==> (#[trigger] f0[j]).0@ != key@,
            decreases c.features@.len() - i,
        {
            if crate::text::str_eq(c.features[i].0.as_str(), key) {
                let entry = (key.to_string(), on);
                proof {
                    lemma_feature_update(f0, i as int, key@, entry);
                }
                c.features.set(i, entry);
                proof {
                    assert forall|j: int| 0 <= j < f0.len() implies (#[trigger] c.features@[j]).0@ == f0[j].0@ by {}
                }
                return c;
            }
            i = i + 1;
        }
        c.features.insert(0, (key.to_string(), on));
        assert(c.features@.drop_first() == f0);
        proof {
            assert forall|a: int, b: int| 0 <= a < b < c.features@.len() && context_ok(self) implies (#[trigger] c.features@[a]).0@
                != (#[trigger] c.features@[b]).0@ by {
                assert(c.features@[b] == f0[b - 1]);
                if a > 0 {
                    assert(c.features@[a] == f0[a - 1]);
                }
            }
        }
        c
    }
}

/// The value of feature `key` in `features`.
pub fn lookup_feature(features: &Vec<(String, bool)>, key: &str) -> (b: bool)
    ensures
        b == feature_value(features@, key@),
{
    let mut i: usize = 0;
    assert(features@.skip(0) == features@);
    while i < features.len()
        invariant
            i <= features@.len(),
            feature_value(features@, key@) == feature_value(features@.skip(i as int), key@),
        decreases features@.len() - i,
    {
        if crate::text::str_eq(features[i].0.as_str(), key) {
            assert(features@.skip(i as int)[0] == features@[i as int]);
            return features[i].1;
        }
        assert(features@.skip(i as int).drop_first() == features@.skip(i + 1));
        i = i + 1;
    }
    false
}

impl Rule {
    /// The conditions of this rule hold in `ctx` (the action is not consulted).
    /// The OS version pattern is not evaluated.
    #[verifier::loop_isolation(false)]
    pub fn matches(&self, ctx: &EvalContext) -> (b: bool)
        requires
            context_ok(*ctx),
        ensures
            b == rule_matches(*self, *ctx),
    {
        if let Some(os) = &self.os {
            if let Some(name) = os.name {
                if name != ctx.os.name {
                    return false;
                }
            }
            if let Some(arch) = &os.arch {
                if !crate::text::str_eq(arch.as_str(), ctx.os.arch.as_str()) {
                    return false;
                }
            }
        }
        if let Some(features) = &self.features {
            let mut i: usize = 0;
            while i < features.len()
                invariant
                    i <= features@.len(),
                    forall|j: int|
                        0 <= j < i ==> feature_value(ctx.features@, #[trigger] features@[j].0@)
                            == features@[j].1,
                decreases features@.len() - i,
            {
                let actual = lookup_feature(&ctx.features, features[i].0.as_str());
                if actual != features[i].1 {
                    let ghost fs = self.features->0;
                    assert(fs@[i as int].0@ == features@[i as int].0@);
                    assert(feature_value(ctx.features@, fs@[i as int].0@) != fs@[i as int].1);
                    return false;
                }
                i = i + 1;
            }
        }
        true
    }
}

/// Whether a rule list allows its subject in `ctx`: allowed when the list is
/// empty, otherwise the last matching rule decides, and nothing matching refuses.
pub fn rules_allow(rules: &Vec<Rule>, ctx: &EvalContext) -> (b: bool)
    requires
        context_ok(*ctx),
    ensures
        b == rules_allow_spec(rules@, *ctx),
{
    let init = rules.len() == 0;
    let mut allowed = init;
    let mut i: usize = 0;
    while i < rules.len()
        invariant
            i <= rules@.len(),
            init == (rules@.len() == 0),
            context_ok(*ctx),
            allowed == fold_allow(rules@.take(i as int), *ctx, init),
        decreases rules@.len() - i,
    {
        assert(rules@.take(i + 1).drop_last() == rules@.take(i as int));
        if rules[i].matches(ctx) {
            allowed = match rules[i].action {
                RuleAction::Allow => true,
                RuleAction::Disallow => false,
            };
        }
        i = i + 1;
    }
    assert(rules@.take(rules@.len() as int) == rules@);
    allowed
}

/// The index of the last rule of `rules` that matches `ctx`, or `-1`.
pub open spec fn last_match(rules: Seq<Rule>, ctx: EvalContext) -> int
    decreases rules.len(),
{
    if rules.len() == 0 {
        -1
    } else if rule_matches(rules.last(), ctx) {
        rules.len() - 1
    } else {
        last_match(rules.drop_last(), ctx)
    }
}

/// The verdict of a non-empty rule list is the action of its last matching
/// rule, and a refusal when no rule matches; an empty list allows.
pub proof fn lemma_last_matching_rule_decides(rules: Seq<Rule>, ctx: EvalContext)
    ensures
        rules.len() == 0 ==> rules_allow_spec(rules, ctx),
        rules.len() > 0 && last_match(rules, ctx) < 0 ==> !rules_allow_spec(rules, ctx),
        last_match(rules, ctx) >= 0 ==> rule_matches(rules[last_match(rules, ctx)], ctx)
            && rules_allow_spec(rules, ctx) == (rules[last_match(rules, ctx)].action
            == RuleAction::Allow),
        forall|j: int| last_match(rules, ctx) < j < rules.len() ==> !rule_matches(rules[j], ctx),
{
    lemma_fold_last(rules, ctx, rules.len() == 0);
}

proof fn lemma_fold_last(rules: Seq<Rule>, ctx: EvalContext, init: bool)
    ensures
        -1 <= last_match(rules, ctx) < rules.len(),
        last_match(rules, ctx) < 0 ==> fold_allow(rules, ctx, init) == init,
        last_match(rules, ctx) >= 0 ==> rule_matches(rules[last_match(rules, ctx)], ctx)
            && fold_allow(rules, ctx, init) == (rules[last_match(rules, ctx)].action
            == RuleAction::Allow),
        forall|j: int| last_match(rules, ctx) < j < rules.len() ==> !rule_matches(rules[j], ctx),
    decreases rules.len(),
{
    if rules.len() > 0 {
        lemma_fold_last(rules.drop_last(), ctx, init);
        assert forall|j: int| last_match(rules, ctx) < j < rules.len() implies !rule_matches(rules[j], ctx) by {
            if j < rules.len() - 1 {
                assert(rules[j] == rules.drop_last()[j]);
            }
        }
        if last_match(rules, ctx) >= 0 && last_match(rules, ctx) < rules.len() - 1 {
            assert(rules[last_match(rules, ctx)] == rules.drop_last()[last_match(rules, ctx)]);
        }
    }
}


/// In a feature list of distinct names (a map), looking up an entry's name
/// gives that entry's value, whatever the order.
pub proof fn law_feature_value_distinct(fs: Seq<(String, bool)>, i: int)
    requires
        crate::text::keys_distinct(fs),
        0 <= i < fs.len(),
    ensures
        feature_value(fs, fs[i].0@) == fs[i].1,
    decreases i,
{
    if i > 0 {
        let t = fs.drop_first();
        assert(fs[0].0@ != fs[i].0@);
        assert(crate::text::keys_distinct(t)) by {
            assert forall|a: int, b: int| 0 <= a < b < t.len() implies (#[trigger] t[a]).0@ != (#[trigger] t[b]).0@ by {
                assert(t[a] == fs[a + 1] && t[b] == fs[b + 1]);
            }
        }
        assert(t[i - 1] == fs[i]);
        law_feature_value_distinct(t, i - 1);
    }
}


/// The OS named by a platform name (`std::env::consts::OS`): `windows` is
/// Windows, `macos` is macOS, every other name counts as Linux.
pub proof fn law_platform_names(os: Seq<char>)
    ensures
        os == "windows"@ ==> os_name_of(os) == OsName::Windows,
        os == "macos"@ ==> os_name_of(os) == OsName::Osx,
        os != "windows"@ && os != "macos"@ ==> os_name_of(os) == OsName::Linux,
{
    reveal_strlit("windows");
    reveal_strlit("macos");
    assert("macos"@.len() != "windows"@.len());
    assert("macos"@ != "windows"@);
}

} // verus!
