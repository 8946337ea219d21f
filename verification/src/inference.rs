//! Which packages a formula needs and whether it stays in math mode, decided by
//! literal search for the registry's triggers in the raw text.

use crate::package::{str_views, Directive, Package};
use crate::registry::{trigger_views, Registry, RegistryView, Trigger, TriggerView};
use crate::text::{contains, find, first_occurrence, occurs, to_chars};
use vstd::prelude::*;

verus! {

/// One thing to look for in a formula, and what finding it means.
pub struct Rule {
    /// The literal text searched for.
    pub token: Seq<char>,
    /// The package that a match asks for.
    pub package: Seq<char>,
    /// The options that a match includes the package with.
    pub options: Seq<Seq<char>>,
    /// Whether a match takes the formula out of math mode.
    pub sets_text_mode: bool,
}

/// The text that opens the environment `name`: `\begin{name}`, or `\begin{name*}`.
pub open spec fn begin_form(name: Seq<char>, starred: bool) -> Seq<char> {
    seq!['\\', 'b', 'e', 'g', 'i', 'n', '{'] + name + (if starred {
        seq!['*']
    } else {
        Seq::empty()
    }) + seq!['}']
}

/// Two rules for each environment, the unstarred begin-form and then the starred one.
pub open spec fn environment_rules(triggers: Seq<TriggerView>) -> Seq<Rule> {
    Seq::new(
        2 * triggers.len(),
        |k: int|
            Rule {
                token: begin_form(triggers[k / 2].token, k % 2 == 1),
                package: triggers[k / 2].package,
                options: Seq::empty(),
                sets_text_mode: true,
            },
    )
}

/// One rule for each command, matched as it is written.
pub open spec fn command_rules(triggers: Seq<TriggerView>) -> Seq<Rule> {
    Seq::new(
        triggers.len(),
        |k: int|
            Rule {
                token: triggers[k].token,
                package: triggers[k].package,
                options: Seq::empty(),
                sets_text_mode: true,
            },
    )
}

/// The fixed rules for diagram matrices: they ask for `xy` with the option
/// `all` and leave the mode alone.
pub open spec fn custom_rules() -> Seq<Rule> {
    seq![
        Rule {
            token: "\\xymatrix"@,
            package: "xy"@,
            options: seq!["all"@],
            sets_text_mode: false,
        },
        Rule {
            token: "\\begin{xy}"@,
            package: "xy"@,
            options: seq!["all"@],
            sets_text_mode: false,
        },
    ]
}

/// Every rule of a registry in the order of evaluation: environments, block
/// commands, inline commands, and the fixed rules last.
pub open spec fn rules(registry: RegistryView) -> Seq<Rule> {
    environment_rules(registry.environments) + command_rules(registry.commands) + command_rules(
        registry.inline_commands,
    ) + custom_rules()
}

/// Whether some directive of `acc` is for the package `name`.
pub open spec fn has_package(acc: Seq<Directive>, name: Seq<char>) -> bool {
    exists|i: int| 0 <= i < acc.len() && #[trigger] acc[i].name == name
}

/// `acc` with the directive `d` recorded: in the place of the directive for
/// the same package where there is one, at the end where there is none.
pub open spec fn upsert(acc: Seq<Directive>, d: Directive) -> Seq<Directive> {
    if has_package(acc, d.name) {
        Seq::new(
            acc.len(),
            |i: int|
                if acc[i].name == d.name {
                    d
                } else {
                    acc[i]
                },
        )
    } else {
        acc.push(d)
    }
}

/// The directives that the rules give for `text`: each rule whose token
/// stands in the text records its directive, in the order of the rules.
pub open spec fn collect(rules: Seq<Rule>, text: Seq<char>) -> Seq<Directive>
    decreases rules.len(),
{
    if rules.len() == 0 {
        Seq::empty()
    } else {
        let before = collect(rules.drop_last(), text);
        let rule = rules.last();
        if occurs(text, rule.token) {
            upsert(before, Directive { name: rule.package, options: rule.options })
        } else {
            before
        }
    }
}

/// The formula stays in math mode: no mode-setting rule has its token in the text.
pub open spec fn math_mode(rules: Seq<Rule>, text: Seq<char>) -> bool {
    forall|k: int|
        0 <= k < rules.len() && (#[trigger] rules[k]).sets_text_mode ==> !occurs(
            text,
            rules[k].token,
        )
}

/// A rule as the search uses it.
pub struct MatchRule {
    pub token: Vec<char>,
    pub package: String,
    pub options: Vec<&'static str>,
    pub sets_text_mode: bool,
}

impl View for MatchRule {
    type V = Rule;

    open spec fn view(&self) -> Rule {
        Rule {
            token: self.token@,
            package: self.package@,
            options: str_views(self.options@),
            sets_text_mode: self.sets_text_mode,
        }
    }
}

/// The views of the rules, in order.
pub open spec fn rule_views(rules: Seq<MatchRule>) -> Seq<Rule> {
    Seq::new(rules.len(), |i: int| rules[i]@)
}

/// The begin-form of the environment `name`, starred or not.
pub fn make_begin_form(name: &str, starred: bool) -> (form: Vec<char>)
    ensures
        form@ == begin_form(name@, starred),
{
    proof {
        reveal_strlit("\\begin{");
    }
    let mut form = to_chars("\\begin{");
    assert(form@ =~= seq!['\\', 'b', 'e', 'g', 'i', 'n', '{']);
    let mut name_chars = to_chars(name);
    form.append(&mut name_chars);
    if starred {
        form.push('*');
    }
    form.push('}');
    assert(form@ =~= begin_form(name@, starred));
    form
}

/// Appends the two rules of each environment to `out`.
fn push_environment_rules(out: &mut Vec<MatchRule>, triggers: &Vec<Trigger>)
    ensures
        rule_views(final(out)@) == rule_views(old(out)@) + environment_rules(
            trigger_views(triggers@),
        ),
{
    let ghost before = rule_views(out@);
    let ghost views = trigger_views(triggers@);
    let mut i: usize = 0;
    while i < triggers.len()
        invariant
            i <= triggers.len(),
            views == trigger_views(triggers@),
            rule_views(out@) == before + environment_rules(views.subrange(0, i as int)),
        decreases triggers.len() - i,
    {
        let ghost prev = rule_views(out@);
        let trigger = &triggers[i];
        out.push(
            MatchRule {
                token: make_begin_form(trigger.token.as_str(), false),
                package: trigger.package.clone(),
                options: Vec::new(),
                sets_text_mode: true,
            },
        );
        out.push(
            MatchRule {
                token: make_begin_form(trigger.token.as_str(), true),
                package: trigger.package.clone(),
                options: Vec::new(),
                sets_text_mode: true,
            },
        );
        proof {
            let next = environment_rules(views.subrange(0, i + 1));
            let cur = environment_rules(views.subrange(0, i as int));
            assert(rule_views(out@).len() == prev.len() + 2);
            assert forall|k: int| 0 <= k < rule_views(out@).len() implies rule_views(out@)[k] == (
            before + next)[k] by {
                if k < prev.len() {
                    assert(rule_views(out@)[k] == prev[k]);
                    if k >= before.len() {
                        assert(prev[k] == cur[k - before.len()]);
                    }
                } else {
                    let j = k - before.len();
                    assert(j / 2 == i as int);
                    assert(rule_views(out@)[k].options =~= Seq::<Seq<char>>::empty());
                }
            }
            assert(rule_views(out@) =~= before + next);
        }
        i = i + 1;
    }
    assert(views.subrange(0, i as int) =~= views);
}

/// Appends the rule of each command to `out`.
fn push_command_rules(out: &mut Vec<MatchRule>, triggers: &Vec<Trigger>)
    ensures
        rule_views(final(out)@) == rule_views(old(out)@) + command_rules(
            trigger_views(triggers@),
        ),
{
    let ghost before = rule_views(out@);
    let ghost views = trigger_views(triggers@);
    let mut i: usize = 0;
    while i < triggers.len()
        invariant
            i <= triggers.len(),
            views == trigger_views(triggers@),
            rule_views(out@) == before + command_rules(views.subrange(0, i as int)),
        decreases triggers.len() - i,
    {
        let ghost prev = rule_views(out@);
        let trigger = &triggers[i];
        out.push(
            MatchRule {
                token: to_chars(trigger.token.as_str()),
                package: trigger.package.clone(),
                options: Vec::new(),
                sets_text_mode: true,
            },
        );
        proof {
            let next = command_rules(views.subrange(0, i + 1));
            let cur = command_rules(views.subrange(0, i as int));
            assert forall|k: int| 0 <= k < rule_views(out@).len() implies rule_views(out@)[k] == (
            before + next)[k] by {
                if k < prev.len() {
                    assert(rule_views(out@)[k] == prev[k]);
                    if k >= before.len() {
                        assert(prev[k] == cur[k - before.len()]);
                    }
                } else {
                    assert(rule_views(out@)[k].options =~= Seq::<Seq<char>>::empty());
                }
            }
            assert(rule_views(out@) =~= before + next);
        }
        i = i + 1;
    }
    assert(views.subrange(0, i as int) =~= views);
}

/// Appends the fixed rules to `out`.
fn push_custom_rules(out: &mut Vec<MatchRule>)
    ensures
        rule_views(final(out)@) == rule_views(old(out)@) + custom_rules(),
{
    let ghost before = rule_views(out@);
    let mut first: Vec<&'static str> = Vec::new();
    first.push("all");
    let mut second: Vec<&'static str> = Vec::new();
    second.push("all");
    out.push(
        MatchRule {
            token: to_chars("\\xymatrix"),
            package: String::from_str("xy"),
            options: first,
            sets_text_mode: false,
        },
    );
    out.push(
        MatchRule {
            token: to_chars("\\begin{xy}"),
            package: String::from_str("xy"),
            options: second,
            sets_text_mode: false,
        },
    );
    proof {
        let n = before.len() as int;
        assert(rule_views(out@)[n].options =~= seq!["all"@]);
        assert(rule_views(out@)[n + 1].options =~= seq!["all"@]);
        assert forall|k: int| 0 <= k < n implies rule_views(out@)[k] == before[k] by {}
        assert(rule_views(out@) =~= before + custom_rules());
    }
}

/// Every rule of the registry, in the order of evaluation.
pub fn rules_of(registry: &Registry) -> (out: Vec<MatchRule>)
    ensures
        rule_views(out@) == rules(registry@),
{
    let mut out: Vec<MatchRule> = Vec::new();
    assert(rule_views(out@) =~= Seq::<Rule>::empty());
    push_environment_rules(&mut out, &registry.environments);
    push_command_rules(&mut out, &registry.commands);
    push_command_rules(&mut out, &registry.inline_commands);
    push_custom_rules(&mut out);
    assert(rule_views(out@) =~= rules(registry@));
    out
}

/// No two directives of `acc` are for the same package.
pub open spec fn names_distinct(acc: Seq<Directive>) -> bool {
    forall|i: int, j: int| 0 <= i < j < acc.len() ==> (#[trigger] acc[i]).name != (#[trigger] acc[j]).name
}

/// Some rule for the package `name` has its token in the text.
pub open spec fn asked_for(rules: Seq<Rule>, text: Seq<char>, name: Seq<char>) -> bool {
    exists|k: int|
        0 <= k < rules.len() && occurs(text, (#[trigger] rules[k]).token) && rules[k].package == name
}

/// The views of the packages, in order.
pub open spec fn directives<'a>(packages: Seq<Package<'a>>) -> Seq<Directive> {
    Seq::new(packages.len(), |i: int| packages[i]@)
}

/// Recording a directive keeps the packages distinct, and lists the packages
/// that were listed before and the recorded one, no others.
pub proof fn lemma_upsert(acc: Seq<Directive>, d: Directive)
    requires
        names_distinct(acc),
    ensures
        names_distinct(upsert(acc, d)),
        has_package(upsert(acc, d), d.name),
        forall|name: Seq<char>|
            has_package(upsert(acc, d), name) <==> (has_package(acc, name) || name == d.name),
{
    let after = upsert(acc, d);
    if has_package(acc, d.name) {
        let w = choose|i: int| 0 <= i < acc.len() && #[trigger] acc[i].name == d.name;
        assert(after[w].name == d.name);
        assert forall|name: Seq<char>| has_package(after, name) implies (has_package(acc, name)
            || name == d.name) by {
            let i = choose|i: int| 0 <= i < after.len() && #[trigger] after[i].name == name;
            if acc[i].name != d.name {
                assert(acc[i].name == name);
            }
        }
        assert forall|name: Seq<char>| (has_package(acc, name) || name == d.name) implies has_package(
            after,
            name,
        ) by {
            if name == d.name {
                assert(after[w].name == name);
            } else {
                let i = choose|i: int| 0 <= i < acc.len() && #[trigger] acc[i].name == name;
                assert(after[i].name == name);
            }
        }
    } else {
        assert(after[acc.len() as int].name == d.name);
        assert forall|i: int, j: int| 0 <= i < j < after.len() implies (#[trigger] after[i]).name != (
        #[trigger] after[j]).name by {
            if j == acc.len() {
                assert(acc[i].name != d.name);
            }
        }
        assert forall|name: Seq<char>| has_package(after, name) implies (has_package(acc, name)
            || name == d.name) by {
            let i = choose|i: int| 0 <= i < after.len() && #[trigger] after[i].name == name;
            if i < acc.len() {
                assert(acc[i].name == name);
            }
        }
        assert forall|name: Seq<char>| (has_package(acc, name) || name == d.name) implies has_package(
            after,
            name,
        ) by {
            if has_package(acc, name) {
                let i = choose|i: int| 0 <= i < acc.len() && #[trigger] acc[i].name == name;
                assert(after[i].name == name);
            } else {
                assert(after[acc.len() as int].name == name);
            }
        }
    }
}

/// The directives collected from any rules name each package at most once.
pub proof fn lemma_collect_distinct(rules: Seq<Rule>, text: Seq<char>)
    ensures
        names_distinct(collect(rules, text)),
    decreases rules.len(),
{
    if rules.len() > 0 {
        lemma_collect_distinct(rules.drop_last(), text);
        let rule = rules.last();
        lemma_upsert(
            collect(rules.drop_last(), text),
            Directive { name: rule.package, options: rule.options },
        );
    }
}

/// A package is among the collected directives exactly if some rule for it
/// has its token in the text.
pub proof fn lemma_collect_membership(rules: Seq<Rule>, text: Seq<char>, name: Seq<char>)
    ensures
        has_package(collect(rules, text), name) <==> asked_for(rules, text, name),
    decreases rules.len(),
{
    if rules.len() > 0 {
        let front = rules.drop_last();
        let rule = rules.last();
        lemma_collect_membership(front, text, name);
        lemma_collect_distinct(front, text);
        lemma_upsert(collect(front, text), Directive { name: rule.package, options: rule.options });
        if asked_for(front, text, name) {
            let k = choose|k: int|
                0 <= k < front.len() && occurs(text, (#[trigger] front[k]).token) && front[k].package
                    == name;
            assert(rules[k] == front[k]);
        }
        if occurs(text, rule.token) && rule.package == name {
            assert(rules[rules.len() - 1] == rule);
        }
        if asked_for(rules, text, name) {
            let k = choose|k: int|
                0 <= k < rules.len() && occurs(text, (#[trigger] rules[k]).token) && rules[k].package
                    == name;
            if k < front.len() {
                assert(front[k] == rules[k]);
            }
        }
    }
}

/// The directive of a package carries the options of the last rule for that
/// package whose token is in the text.
pub proof fn lemma_collect_options(rules: Seq<Rule>, text: Seq<char>, k: int)
    requires
        0 <= k < rules.len(),
        occurs(text, rules[k].token),
        forall|j: int|
            k < j < rules.len() && occurs(text, (#[trigger] rules[j]).token) ==> rules[j].package
                != rules[k].package,
    ensures
        exists|i: int|
            0 <= i < collect(rules, text).len() && #[trigger] collect(rules, text)[i] == (Directive {
                name: rules[k].package,
                options: rules[k].options,
            }),
    decreases rules.len(),
{
    let front = rules.drop_last();
    let rule = rules.last();
    let before = collect(front, text);
    let wanted = Directive { name: rules[k].package, options: rules[k].options };
    let d = Directive { name: rule.package, options: rule.options };
    lemma_collect_distinct(front, text);
    lemma_upsert(before, d);
    if k == rules.len() - 1 {
        assert(rule == rules[k]);
        let after = upsert(before, d);
        assert(collect(rules, text) == after);
        let i = choose|i: int| 0 <= i < after.len() && #[trigger] after[i].name == d.name;
        if has_package(before, d.name) {
            assert(after[i] == wanted);
        } else {
            assert(after[before.len() as int] == wanted);
        }
    } else {
        assert(front[k] == rules[k]);
        assert forall|j: int| k < j < front.len() && occurs(text, (#[trigger] front[j]).token) implies front[j].package
            != front[k].package by {
            assert(front[j] == rules[j]);
        }
        lemma_collect_options(front, text, k);
        let i = choose|i: int| 0 <= i < before.len() && #[trigger] before[i] == wanted;
        if occurs(text, rule.token) {
            assert(rules[rules.len() - 1] == rule);
            assert(rule.package != wanted.name);
            let after = upsert(before, d);
            assert(collect(rules, text) == after);
            assert(after[i] == wanted);
        } else {
            assert(collect(rules, text)[i] == wanted);
        }
    }
}

/// The directives stand in the order in which their packages were first
/// asked for: of two directives, the earlier one has a rule with its token in
/// the text before any such rule of the later one. The result is such a rule.
pub proof fn lemma_collect_order(rules: Seq<Rule>, text: Seq<char>, i: int, j: int) -> (k: int)
    requires
        0 <= i < j < collect(rules, text).len(),
    ensures
        0 <= k < rules.len(),
        occurs(text, rules[k].token),
        rules[k].package == collect(rules, text)[i].name,
        forall|earlier: int|
            0 <= earlier <= k && occurs(text, (#[trigger] rules[earlier]).token)
                ==> rules[earlier].package != collect(rules, text)[j].name,
    decreases rules.len(),
{
    let front = rules.drop_last();
    let rule = rules.last();
    let before = collect(front, text);
    let d = Directive { name: rule.package, options: rule.options };
    if occurs(text, rule.token) && !has_package(before, d.name) && j == before.len() {
        assert(before[i].name == collect(rules, text)[i].name);
        lemma_collect_membership(front, text, before[i].name);
        let k = choose|k: int|
            0 <= k < front.len() && occurs(text, (#[trigger] front[k]).token) && front[k].package
                == before[i].name;
        assert(rules[k] == front[k]);
        assert forall|earlier: int|
            0 <= earlier <= k && occurs(text, (#[trigger] rules[earlier]).token) implies rules[earlier].package
            != d.name by {
            assert(front[earlier] == rules[earlier]);
            lemma_collect_membership(front, text, d.name);
        }
        k
    } else {
        assert(j < before.len());
        assert(collect(rules, text)[i].name == before[i].name);
        assert(collect(rules, text)[j].name == before[j].name);
        let k = lemma_collect_order(front, text, i, j);
        assert(rules[k] == front[k]);
        assert forall|earlier: int|
            0 <= earlier <= k && occurs(text, (#[trigger] rules[earlier]).token) implies rules[earlier].package
            != before[j].name by {
            assert(front[earlier] == rules[earlier]);
        }
        k
    }
}

/// One match of a mode-setting rule is enough to leave math mode.
pub proof fn lemma_one_match_sets_text_mode(rules: Seq<Rule>, text: Seq<char>, k: int)
    requires
        0 <= k < rules.len(),
        rules[k].sets_text_mode,
        occurs(text, rules[k].token),
    ensures
        !math_mode(rules, text),
{
}

/// The order of the rules decides neither the mode nor which packages are
/// listed: two sequences of the same rules agree on both. (It does decide
/// the order of the directives, and whose options a package gets where two
/// rules for it differ in them.)
pub proof fn lemma_order_irrelevant(a: Seq<Rule>, b: Seq<Rule>, text: Seq<char>)
    requires
        forall|rule: Rule| a.contains(rule) <==> b.contains(rule),
    ensures
        math_mode(a, text) == math_mode(b, text),
        forall|name: Seq<char>|
            has_package(collect(a, text), name) <==> has_package(collect(b, text), name),
{
    if math_mode(b, text) {
        lemma_same_rules_same_mode(a, b, text);
    }
    if math_mode(a, text) {
        lemma_same_rules_same_mode(b, a, text);
    }
    assert forall|name: Seq<char>|
        has_package(collect(a, text), name) <==> has_package(collect(b, text), name) by {
        lemma_collect_membership(a, text, name);
        lemma_collect_membership(b, text, name);
        if asked_for(a, text, name) {
            lemma_same_rules_same_asking(a, b, text, name);
        }
        if asked_for(b, text, name) {
            lemma_same_rules_same_asking(b, a, text, name);
        }
    }
}

proof fn lemma_same_rules_same_mode(a: Seq<Rule>, b: Seq<Rule>, text: Seq<char>)
    requires
        forall|rule: Rule| a.contains(rule) ==> b.contains(rule),
        math_mode(b, text),
    ensures
        math_mode(a, text),
{
    assert forall|k: int| 0 <= k < a.len() && (#[trigger] a[k]).sets_text_mode implies !occurs(
        text,
        a[k].token,
    ) by {
        assert(a.contains(a[k]));
        let j = choose|j: int| 0 <= j < b.len() && b[j] == a[k];
        assert(b[j].sets_text_mode);
    }
}

proof fn lemma_same_rules_same_asking(a: Seq<Rule>, b: Seq<Rule>, text: Seq<char>, name: Seq<char>)
    requires
        forall|rule: Rule| a.contains(rule) ==> b.contains(rule),
        asked_for(a, text, name),
    ensures
        asked_for(b, text, name),
{
    let k = choose|k: int|
        0 <= k < a.len() && occurs(text, (#[trigger] a[k]).token) && a[k].package == name;
    assert(a.contains(a[k]));
    let j = choose|j: int| 0 <= j < b.len() && b[j] == a[k];
    assert(occurs(text, b[j].token) && b[j].package == name);
}

/// A formula in which no rule's token stands is in math mode and needs no package.
pub proof fn lemma_no_match(rules: Seq<Rule>, text: Seq<char>)
    requires
        forall|k: int| 0 <= k < rules.len() ==> !occurs(text, (#[trigger] rules[k]).token),
    ensures
        math_mode(rules, text),
        collect(rules, text) == Seq::<Directive>::empty(),
    decreases rules.len(),
{
    if rules.len() > 0 {
        let front = rules.drop_last();
        assert forall|k: int| 0 <= k < front.len() implies !occurs(text, (#[trigger] front[k]).token) by {
            assert(front[k] == rules[k]);
        }
        lemma_no_match(front, text);
        assert(rules[rules.len() - 1] == rules.last());
    }
}

/// A formula that holds the begin-form of a registered environment, starred or
/// not, is out of math mode, and that environment's package is listed exactly once.
pub proof fn lemma_environment_match(
    registry: RegistryView,
    text: Seq<char>,
    e: int,
    starred: bool,
)
    requires
        0 <= e < registry.environments.len(),
        occurs(text, begin_form(registry.environments[e].token, starred)),
    ensures
        !math_mode(rules(registry), text),
        exists|i: int|
            0 <= i < collect(rules(registry), text).len() && (#[trigger] collect(
                rules(registry),
                text,
            )[i]).name == registry.environments[e].package && forall|j: int|
                0 <= j < collect(rules(registry), text).len() && (#[trigger] collect(
                    rules(registry),
                    text,
                )[j]).name == registry.environments[e].package ==> j == i,
{
    let all = rules(registry);
    let name = registry.environments[e].package;
    let k: int = if starred {
        2 * e + 1
    } else {
        2 * e
    };
    assert(k / 2 == e && (k % 2 == 1) == starred);
    assert(all[k] == environment_rules(registry.environments)[k]);
    assert(all[k].token == begin_form(registry.environments[e].token, starred));
    assert(all[k].sets_text_mode);
    assert(all[k].package == name);
    lemma_collect_membership(all, text, name);
    lemma_collect_distinct(all, text);
    let found = collect(all, text);
    let i = choose|i: int| 0 <= i < found.len() && #[trigger] found[i].name == name;
    assert forall|j: int| 0 <= j < found.len() && (#[trigger] found[j]).name == name implies j
        == i by {
        if j < i {
            assert(found[j].name != found[i].name);
        } else if i < j {
            assert(found[i].name != found[j].name);
        }
    }
}

/// The marker that asks for inline style: `\inline`.
pub open spec fn inline_marker() -> Seq<char> {
    seq!['\\', 'i', 'n', 'l', 'i', 'n', 'e']
}

/// What stands in the marker's place afterwards: `\textstyle` and a space.
pub open spec fn inline_replacement() -> Seq<char> {
    seq!['\\', 't', 'e', 'x', 't', 's', 't', 'y', 'l', 'e', ' ']
}

/// The formula is inline: the marker's first occurrence starts at offset 1.
pub open spec fn is_inline(text: Seq<char>) -> bool {
    first_occurrence(text, inline_marker(), 1)
}

/// The text after the inline transform: where the formula is inline, the
/// marker at offset 1 gives way to its replacement; any other text is unchanged.
pub open spec fn transformed(text: Seq<char>) -> Seq<char> {
    if is_inline(text) {
        text.subrange(0, 1) + inline_replacement() + text.subrange(
            1 + inline_marker().len() as int,
            text.len() as int,
        )
    } else {
        text
    }
}

/// The inline transform changes a text exactly if the marker's first
/// occurrence starts at offset 1. What it changes is the marker alone: the
/// character before it and all that follows it stay.
pub proof fn lemma_inline_transform(text: Seq<char>)
    ensures
        transformed(text) != text <==> first_occurrence(text, inline_marker(), 1),
        is_inline(text) ==> transformed(text) == text.subrange(0, 1) + inline_replacement()
            + text.subrange(8, text.len() as int),
        is_inline(text) ==> text == text.subrange(0, 1) + inline_marker() + text.subrange(
            8,
            text.len() as int,
        ),
{
    if is_inline(text) {
        assert(transformed(text).len() == text.len() + 4);
        assert(text =~= text.subrange(0, 1) + text.subrange(1, 8) + text.subrange(
            8,
            text.len() as int,
        ));
    }
}

/// Records the directive of `rule` in `acc`.
fn record(acc: &mut Vec<Package<'static>>, rule: &MatchRule)
    requires
        names_distinct(directives(old(acc)@)),
    ensures
        directives(final(acc)@) == upsert(
            directives(old(acc)@),
            Directive { name: rule@.package, options: rule@.options },
        ),
{
    let ghost before = directives(acc@);
    let ghost d = Directive { name: rule@.package, options: rule@.options };
    let mut options: Vec<&'static str> = Vec::new();
    let mut k: usize = 0;
    while k < rule.options.len()
        invariant
            k <= rule.options.len(),
            options@ == rule.options@.subrange(0, k as int),
        decreases rule.options.len() - k,
    {
        options.push(rule.options[k]);
        assert(options@ =~= rule.options@.subrange(0, k + 1));
        k = k + 1;
    }
    assert(options@ =~= rule.options@);
    let package = Package { options, package_str: rule.package.clone() };
    assert(package@.options =~= d.options);
    assert(package@ == d);
    let mut j: usize = 0;
    while j < acc.len()
        invariant
            j <= acc.len(),
            acc@ == old(acc)@,
            before == directives(acc@),
            names_distinct(before),
            before == directives(old(acc)@),
            d == (Directive { name: rule@.package, options: rule@.options }),
            package@ == d,
            forall|i: int| 0 <= i < j ==> (#[trigger] before[i]).name != d.name,
        decreases acc.len() - j,
    {
        if acc[j].package_str == rule.package {
            assert(before[j as int].name == d.name);
            acc.set(j, package);
            proof {
                let after = upsert(before, d);
                assert forall|i: int| 0 <= i < after.len() implies directives(acc@)[i]
                    == after[i] by {
                    if i < j {
                        assert(before[i].name != d.name);
                    } else if i > j {
                        assert(before[j as int].name != before[i].name);
                    }
                }
                assert(directives(acc@) =~= after);
            }
            return ;
        }
        j = j + 1;
    }
    assert(!has_package(before, d.name));
    acc.push(package);
    assert(directives(acc@) =~= before.push(d));
}

/// Whether the formula stays in math mode, and the directives that the rules
/// give for it, each package once.
pub fn collect_packages(text: &Vec<char>, rules: &Vec<MatchRule>) -> (found: (
    bool,
    Vec<Package<'static>>,
))
    ensures
        found.0 == math_mode(rule_views(rules@), text@),
        directives(found.1@) == collect(rule_views(rules@), text@),
        names_distinct(directives(found.1@)),
{
    let ghost all = rule_views(rules@);
    let mut is_math_mode = true;
    let mut packages: Vec<Package<'static>> = Vec::new();
    assert(directives(packages@) =~= Seq::<Directive>::empty());
    let mut i: usize = 0;
    while i < rules.len()
        invariant
            i <= rules.len(),
            all == rule_views(rules@),
            is_math_mode == math_mode(all.subrange(0, i as int), text@),
            directives(packages@) == collect(all.subrange(0, i as int), text@),
        decreases rules.len() - i,
    {
        let ghost front = all.subrange(0, i as int);
        let ghost next = all.subrange(0, i + 1);
        proof {
            assert(next.drop_last() =~= front);
            assert(next.last() == all[i as int]);
            lemma_collect_distinct(front, text@);
        }
        let rule = &rules[i];
        let hit = contains(text, &rule.token);
        if hit {
            record(&mut packages, rule);
            if rule.sets_text_mode {
                is_math_mode = false;
            }
        }
        proof {
            if hit && rule.sets_text_mode {
                assert(next[i as int] == all[i as int]);
            } else if math_mode(front, text@) {
                assert forall|k: int|
                    0 <= k < next.len() && (#[trigger] next[k]).sets_text_mode implies !occurs(
                    text@,
                    next[k].token,
                ) by {
                    if k < i {
                        assert(front[k] == next[k]);
                    }
                }
            } else {
                let k = choose|k: int|
                    0 <= k < front.len() && (#[trigger] front[k]).sets_text_mode && occurs(
                        text@,
                        front[k].token,
                    );
                assert(next[k] == front[k]);
            }
        }
        i = i + 1;
    }
    assert(all.subrange(0, i as int) =~= all);
    proof {
        lemma_collect_distinct(all, text@);
    }
    (is_math_mode, packages)
}

/// The formula after the inline transform.
pub fn transform_inline(formula: &str) -> (text: String)
    ensures
        text@ == transformed(formula@),
{
    proof {
        reveal_strlit("\\inline");
        reveal_strlit("\\textstyle ");
    }
    let chars = to_chars(formula);
    let marker = to_chars("\\inline");
    assert(marker@ =~= inline_marker());
    let inline = match find(&chars, &marker) {
        Some(index) => index == 1,
        None => false,
    };
    assert(inline == is_inline(formula@));
    if inline {
        let n: usize = chars.len();
        let mut text = String::from_str(formula.substring_char(0, 1));
        text.append("\\textstyle ");
        assert("\\textstyle "@ =~= inline_replacement());
        text.append(formula.substring_char(8, n));
        text
    } else {
        String::from_str(formula)
    }
}

/// What inference finds in a formula.
pub struct Inference {
    /// Whether the formula is typeset in math mode.
    pub is_math_mode: bool,
    /// The formula after the inline transform.
    pub text: String,
    /// The packages that the formula needs, each once.
    pub packages: Vec<Package<'static>>,
}

/// Infers mode, text and packages of a formula from the raw text. Every
/// formula has a result: one without any trigger is in math mode and needs
/// no package.
pub fn infer(formula: &str, registry: &Registry) -> (found: Inference)
    ensures
        found.is_math_mode == math_mode(rules(registry@), formula@),
        found.text@ == transformed(formula@),
        directives(found.packages@) == collect(rules(registry@), formula@),
        names_distinct(directives(found.packages@)),
{
    let all = rules_of(registry);
    let chars = to_chars(formula);
    let (is_math_mode, packages) = collect_packages(&chars, &all);
    Inference { is_math_mode, text: transform_inline(formula), packages }
}

} // verus!
