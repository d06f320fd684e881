use vstd::prelude::*;

use crate::pattern::{groups_view, opt_string_view, regex_captures, Pattern};
use crate::tagged::Tagged;
use crate::text::chars_of;
use crate::version::{
    opt_version_view, ValueModel, VersionModel, WappTechVersionPattern, WappTechVersionValue,
};

verus! {

/// The outcome of one rule, or of many folded together.
#[derive(Debug, PartialEq, Eq)]
pub struct WappTechCheckResult {
    pub confidence: i32,
    pub version: Option<String>,
}

/// The mathematical value of a `WappTechCheckResult`.
pub struct OutcomeModel {
    pub confidence: i32,
    pub version: Option<Seq<char>>,
}

impl View for WappTechCheckResult {
    type V = OutcomeModel;

    open spec fn view(&self) -> OutcomeModel {
        OutcomeModel { confidence: self.confidence, version: opt_string_view(self.version) }
    }
}

pub open spec fn outcome_view(o: Option<WappTechCheckResult>) -> Option<OutcomeModel> {
    match o {
        Some(r) => Some(r@),
        None => None,
    }
}

// ---------------------------------------------------------------------------
// Aggregation

/// The confidence of the best outcome so far; 0 when there is none.
pub open spec fn best_confidence(best: Option<OutcomeModel>) -> int {
    match best {
        Some(b) => b.confidence as int,
        None => 0,
    }
}

/// An outcome at full confidence, which ends a fold.
pub open spec fn is_final(o: Option<OutcomeModel>) -> bool {
    o matches Some(x) && x.confidence >= 100
}

/// The best outcome after `o` is offered: `o` replaces `best` only if its
/// confidence is strictly higher.
pub open spec fn step(best: Option<OutcomeModel>, o: Option<OutcomeModel>) -> Option<OutcomeModel> {
    match o {
        Some(x) => if x.confidence > best_confidence(best) {
            Some(x)
        } else {
            best
        },
        None => best,
    }
}

/// Folds `outcomes` in order into `best`, stopping at the first outcome at
/// full confidence.
pub open spec fn aggregate_from(best: Option<OutcomeModel>, outcomes: Seq<Option<OutcomeModel>>) -> Option<
    OutcomeModel,
>
    decreases outcomes.len(),
{
    if outcomes.len() == 0 {
        best
    } else if is_final(outcomes[0]) {
        outcomes[0]
    } else {
        aggregate_from(step(best, outcomes[0]), outcomes.drop_first())
    }
}

/// The single outcome that an ordered collection of outcomes reduces to.
pub open spec fn aggregate(outcomes: Seq<Option<OutcomeModel>>) -> Option<OutcomeModel> {
    aggregate_from(None, outcomes)
}

pub proof fn lemma_aggregate_unfold(best: Option<OutcomeModel>, s: Seq<Option<OutcomeModel>>, i: int)
    requires
        0 <= i < s.len(),
    ensures
        aggregate_from(best, s.subrange(i, s.len() as int)) == if is_final(s[i]) {
            s[i]
        } else {
            aggregate_from(step(best, s[i]), s.subrange(i + 1, s.len() as int))
        },
{
    assert(s.subrange(i, s.len() as int).drop_first() =~= s.subrange(i + 1, s.len() as int));
}

pub proof fn lemma_aggregate_end(best: Option<OutcomeModel>, s: Seq<Option<OutcomeModel>>)
    ensures
        aggregate_from(best, s.subrange(s.len() as int, s.len() as int)) == best,
{
    assert(s.subrange(s.len() as int, s.len() as int).len() == 0);
}

pub proof fn lemma_aggregate_start(s: Seq<Option<OutcomeModel>>)
    ensures
        aggregate(s) == aggregate_from(None, s.subrange(0, s.len() as int)),
{
    assert(s.subrange(0, s.len() as int) =~= s);
}

pub open spec fn outcomes_view(s: Seq<Option<WappTechCheckResult>>) -> Seq<Option<OutcomeModel>> {
    s.map_values(|o: Option<WappTechCheckResult>| outcome_view(o))
}

/// Offers `o` to the best outcome so far; returns whether `o` is final, in
/// which case it has become the best outcome.
pub(crate) fn offer(best: &mut Option<WappTechCheckResult>, o: Option<WappTechCheckResult>) -> (done: bool)
    ensures
        done == is_final(outcome_view(o)),
        done ==> outcome_view(*final(best)) == outcome_view(o),
        !done ==> outcome_view(*final(best)) == step(outcome_view(*old(best)), outcome_view(o)),
{
    match o {
        Some(x) => {
            if x.confidence >= 100 {
                *best = Some(x);
                return true;
            }
            let current: i32 = match best {
                Some(b) => b.confidence,
                None => 0,
            };
            if x.confidence > current {
                *best = Some(x);
            }
            false
        },
        None => false,
    }
}

/// Reduces outcomes to one: the first at full confidence, or else the first
/// with the highest confidence.
pub fn aggregate_outcomes(outcomes: Vec<Option<WappTechCheckResult>>) -> (r: Option<WappTechCheckResult>)
    ensures
        outcome_view(r) == aggregate(outcomes_view(outcomes@)),
{
    let ghost all = outcomes_view(outcomes@);
    let mut best: Option<WappTechCheckResult> = None;
    let ghost original = outcomes@;
    let mut rest = outcomes;
    let n = rest.len();
    let mut i: usize = 0;
    proof {
        lemma_aggregate_start(all);
    }
    while i < n
        invariant
            n == all.len(),
            rest@.len() == n - i,
            i <= n,
            all == outcomes_view(original),
            all == outcomes_view(outcomes@),
            rest@ == original.subrange(i as int, n as int),
            aggregate(all) == aggregate_from(outcome_view(best), all.subrange(i as int, n as int)),
        decreases n - i,
    {
        assert(rest@[0] == original[i as int]);
        let o = rest.remove(0);
        assert(rest@ =~= original.subrange(i + 1, n as int));
        assert(outcome_view(o) == all[i as int]);
        proof {
            lemma_aggregate_unfold(outcome_view(best), all, i as int);
        }
        if offer(&mut best, o) {
            return best;
        }
        i = i + 1;
    }
    proof {
        lemma_aggregate_end(outcome_view(best), all);
    }
    best
}

// ---------------------------------------------------------------------------
// Version resolution

/// The text of capture group `i`; group 0, a group beyond the pattern's, and a
/// group that took no part in the match give none.
pub open spec fn group_text(groups: Seq<Option<Seq<char>>>, i: usize) -> Option<Seq<char>> {
    if 1 <= i && i < groups.len() {
        groups[i as int]
    } else {
        None
    }
}

/// Capture group `i` matched some non-empty text.
pub open spec fn group_participates(groups: Seq<Option<Seq<char>>>, i: usize) -> bool {
    group_text(groups, i) matches Some(t) && t.len() > 0
}

pub open spec fn resolve_value(v: ValueModel, groups: Seq<Option<Seq<char>>>) -> Option<Seq<char>> {
    match v {
        ValueModel::Const(s) => Some(s),
        ValueModel::Var(i) => group_text(groups, i),
    }
}

pub open spec fn resolve_opt_value(v: Option<ValueModel>, groups: Seq<Option<Seq<char>>>) -> Option<
    Seq<char>,
> {
    match v {
        Some(x) => resolve_value(x, groups),
        None => None,
    }
}

/// The version that a match with capture groups `groups` resolves to.
pub open spec fn resolve_version(v: Option<VersionModel>, groups: Seq<Option<Seq<char>>>) -> Option<
    Seq<char>,
> {
    match v {
        None => None,
        Some(VersionModel::Always(x)) => resolve_value(x, groups),
        Some(VersionModel::Conditional { cond_var, true_expr, false_expr }) => if group_participates(
            groups,
            cond_var,
        ) {
            resolve_opt_value(true_expr, groups)
        } else {
            resolve_opt_value(false_expr, groups)
        },
    }
}

fn group_text_exec(groups: &Vec<Option<String>>, i: usize) -> (r: Option<String>)
    ensures
        opt_string_view(r) == group_text(groups@.map_values(|o: Option<String>| opt_string_view(o)), i),
{
    if 1 <= i && i < groups.len() {
        match &groups[i] {
            Some(s) => Some(s.clone()),
            None => None,
        }
    } else {
        None
    }
}

fn resolve_value_exec(v: &WappTechVersionValue, groups: &Vec<Option<String>>) -> (r: Option<String>)
    ensures
        opt_string_view(r) == resolve_value(v@, groups@.map_values(|o: Option<String>| opt_string_view(o))),
{
    match v {
        WappTechVersionValue::Const(s) => Some(s.clone()),
        WappTechVersionValue::Var(i) => group_text_exec(groups, *i),
    }
}

fn resolve_opt_value_exec(v: &Option<WappTechVersionValue>, groups: &Vec<Option<String>>) -> (r: Option<String>)
    ensures
        opt_string_view(r) == resolve_opt_value(
            crate::version::opt_value_view(*v),
            groups@.map_values(|o: Option<String>| opt_string_view(o)),
        ),
{
    match v {
        Some(x) => resolve_value_exec(x, groups),
        None => None,
    }
}

fn resolve_version_exec(v: &Option<WappTechVersionPattern>, groups: &Vec<Option<String>>) -> (r: Option<
    String,
>)
    ensures
        opt_string_view(r) == resolve_version(
            opt_version_view(*v),
            groups@.map_values(|o: Option<String>| opt_string_view(o)),
        ),
{
    let ghost g = groups@.map_values(|o: Option<String>| opt_string_view(o));
    match v {
        None => None,
        Some(WappTechVersionPattern::Always(x)) => resolve_value_exec(x, groups),
        Some(WappTechVersionPattern::Conditional { cond_var, true_expr, false_expr }) => {
            let participates = match group_text_exec(groups, *cond_var) {
                Some(t) => t.unicode_len() > 0,
                None => false,
            };
            assert(participates == group_participates(g, *cond_var));
            if participates {
                resolve_opt_value_exec(true_expr, groups)
            } else {
                resolve_opt_value_exec(false_expr, groups)
            }
        },
    }
}

// ---------------------------------------------------------------------------
// Rule evaluation

/// The outcome of a regular-expression rule on `input`: none without a match,
/// else the rule's confidence and the version its match resolves to.
pub open spec fn regex_outcome(rule: Tagged<Pattern>, input: Seq<char>) -> Option<OutcomeModel> {
    match regex_captures(rule.inner@, input) {
        None => None,
        Some(g) => Some(
            OutcomeModel {
                confidence: rule.confidence,
                version: resolve_version(opt_version_view(rule.version), g),
            },
        ),
    }
}

/// The outcome of an existence check: always there, with the rule's
/// confidence and the literal version it states, if any.
pub open spec fn exists_outcome(rule: Tagged<()>) -> Option<OutcomeModel> {
    Some(
        OutcomeModel {
            confidence: rule.confidence,
            version: match opt_version_view(rule.version) {
                Some(VersionModel::Always(ValueModel::Const(s))) => Some(s),
                _ => None,
            },
        },
    )
}

/// The outcomes of `rules` on `input`, in order.
pub open spec fn rules_outcomes(rules: Seq<Tagged<Pattern>>, input: Seq<char>) -> Seq<Option<OutcomeModel>> {
    rules.map_values(|r: Tagged<Pattern>| regex_outcome(r, input))
}

/// The outcome of a list of rules on one input.
pub open spec fn rules_outcome(rules: Seq<Tagged<Pattern>>, input: Seq<char>) -> Option<OutcomeModel> {
    aggregate(rules_outcomes(rules, input))
}

impl Tagged<()> {
    /// Evaluates an existence check.
    pub fn check(&self) -> (r: Option<WappTechCheckResult>)
        ensures
            outcome_view(r) == exists_outcome(*self),
    {
        let version = match &self.version {
            Some(WappTechVersionPattern::Always(WappTechVersionValue::Const(s))) => Some(s.clone()),
            _ => None,
        };
        Some(WappTechCheckResult { confidence: self.confidence, version })
    }
}

impl Tagged<Pattern> {
    /// Evaluates a regular-expression rule against `input`.
    pub fn check(&self, input: &str) -> (r: Option<WappTechCheckResult>)
        ensures
            outcome_view(r) == regex_outcome(*self, input@),
    {
        match self.inner.captures(input) {
            None => None,
            Some(groups) => {
                let version = resolve_version_exec(&self.version, &groups);
                Some(WappTechCheckResult { confidence: self.confidence, version })
            },
        }
    }
}

/// Evaluates `rules` in order against `input` and folds their outcomes,
/// stopping at the first rule that reaches full confidence.
pub fn check_rules(rules: &Vec<Tagged<Pattern>>, input: &str) -> (r: Option<WappTechCheckResult>)
    ensures
        outcome_view(r) == rules_outcome(rules@, input@),
{
    let ghost all = rules_outcomes(rules@, input@);
    let n = rules.len();
    let mut best: Option<WappTechCheckResult> = None;
    let mut i: usize = 0;
    proof {
        lemma_aggregate_start(all);
    }
    while i < n
        invariant
            n == rules@.len(),
            all == rules_outcomes(rules@, input@),
            i <= n,
            aggregate(all) == aggregate_from(outcome_view(best), all.subrange(i as int, n as int)),
        decreases n - i,
    {
        let o = rules[i].check(input);
        proof {
            lemma_aggregate_unfold(outcome_view(best), all, i as int);
        }
        if offer(&mut best, o) {
            return best;
        }
        i = i + 1;
    }
    proof {
        lemma_aggregate_end(outcome_view(best), all);
    }
    best
}

// ---------------------------------------------------------------------------
// Keyed categories

pub open spec fn ascii_lower(c: char) -> int {
    if 'A' <= c && c <= 'Z' {
        (c as u32) + 32
    } else {
        c as u32 as int
    }
}

/// `a` and `b` are equal when ASCII letters are compared without case.
pub open spec fn eq_ignore_ascii_case(a: Seq<char>, b: Seq<char>) -> bool {
    a.len() == b.len() && forall|i: int| 0 <= i < a.len() ==> ascii_lower(#[trigger] a[i]) == ascii_lower(b[i])
}

/// A rule key names a page entry: without case for headers, exactly otherwise.
pub open spec fn key_matches(rule_key: Seq<char>, entry_key: Seq<char>, ignore_case: bool) -> bool {
    if ignore_case {
        eq_ignore_ascii_case(rule_key, entry_key)
    } else {
        rule_key == entry_key
    }
}

/// The outcomes that the rule groups give one page entry: a group whose key
/// does not name the entry gives none.
pub open spec fn entry_outcomes(
    groups: Seq<(String, Vec<Tagged<Pattern>>)>,
    key: Seq<char>,
    value: Seq<char>,
    ignore_case: bool,
) -> Seq<Option<OutcomeModel>> {
    groups.map_values(
        |g: (String, Vec<Tagged<Pattern>>)|
            if key_matches(g.0@, key, ignore_case) {
                rules_outcome(g.1@, value)
            } else {
                None
            },
    )
}

/// The outcome of keyed rule groups on a collection of named page entries.
pub open spec fn keyed_outcome(
    groups: Seq<(String, Vec<Tagged<Pattern>>)>,
    entries: Seq<(String, String)>,
    ignore_case: bool,
) -> Option<OutcomeModel> {
    aggregate(
        entries.map_values(
            |e: (String, String)| aggregate(entry_outcomes(groups, e.0@, e.1@, ignore_case)),
        ),
    )
}

fn lower_exec(c: char) -> (r: u32)
    ensures
        r as int == ascii_lower(c),
{
    if 'A' <= c && c <= 'Z' {
        (c as u32) + 32
    } else {
        c as u32
    }
}

fn key_matches_exec(rule_key: &String, entry_key: &String, ignore_case: bool) -> (r: bool)
    ensures
        r == key_matches(rule_key@, entry_key@, ignore_case),
{
    if !ignore_case {
        return rule_key.eq(entry_key);
    }
    let a = chars_of(rule_key.as_str());
    let b = chars_of(entry_key.as_str());
    if a.len() != b.len() {
        return false;
    }
    let mut i: usize = 0;
    while i < a.len()
        invariant
            a@ == rule_key@,
            b@ == entry_key@,
            a@.len() == b@.len(),
            i <= a@.len(),
            forall|j: int| 0 <= j < i ==> ascii_lower(#[trigger] a@[j]) == ascii_lower(b@[j]),
        decreases a@.len() - i,
    {
        if lower_exec(a[i]) != lower_exec(b[i]) {
            return false;
        }
        i = i + 1;
    }
    true
}

fn check_entry(groups: &Vec<(String, Vec<Tagged<Pattern>>)>, key: &String, value: &String, ignore_case: bool) -> (r:
    Option<WappTechCheckResult>)
    ensures
        outcome_view(r) == aggregate(entry_outcomes(groups@, key@, value@, ignore_case)),
{
    let ghost all = entry_outcomes(groups@, key@, value@, ignore_case);
    let n = groups.len();
    let mut best: Option<WappTechCheckResult> = None;
    let mut i: usize = 0;
    proof {
        lemma_aggregate_start(all);
    }
    while i < n
        invariant
            n == groups@.len(),
            all == entry_outcomes(groups@, key@, value@, ignore_case),
            i <= n,
            aggregate(all) == aggregate_from(outcome_view(best), all.subrange(i as int, n as int)),
        decreases n - i,
    {
        let group = &groups[i];
        let o = if key_matches_exec(&group.0, key, ignore_case) {
            check_rules(&group.1, value.as_str())
        } else {
            None
        };
        proof {
            lemma_aggregate_unfold(outcome_view(best), all, i as int);
        }
        if offer(&mut best, o) {
            return best;
        }
        i = i + 1;
    }
    proof {
        lemma_aggregate_end(outcome_view(best), all);
    }
    best
}

/// Evaluates keyed rule groups against named page entries (headers, cookies,
/// meta tags), entry by entry.
pub fn check_keyed(
    groups: &Vec<(String, Vec<Tagged<Pattern>>)>,
    entries: &Vec<(String, String)>,
    ignore_case: bool,
) -> (r: Option<WappTechCheckResult>)
    ensures
        outcome_view(r) == keyed_outcome(groups@, entries@, ignore_case),
{
    let ghost all = entries@.map_values(
        |e: (String, String)| aggregate(entry_outcomes(groups@, e.0@, e.1@, ignore_case)),
    );
    let n = entries.len();
    let mut best: Option<WappTechCheckResult> = None;
    let mut i: usize = 0;
    proof {
        lemma_aggregate_start(all);
    }
    while i < n
        invariant
            n == entries@.len(),
            all == entries@.map_values(
                |e: (String, String)| aggregate(entry_outcomes(groups@, e.0@, e.1@, ignore_case)),
            ),
            i <= n,
            aggregate(all) == aggregate_from(outcome_view(best), all.subrange(i as int, n as int)),
        decreases n - i,
    {
        let entry = &entries[i];
        let o = check_entry(groups, &entry.0, &entry.1, ignore_case);
        proof {
            lemma_aggregate_unfold(outcome_view(best), all, i as int);
        }
        if offer(&mut best, o) {
            return best;
        }
        i = i + 1;
    }
    proof {
        lemma_aggregate_end(outcome_view(best), all);
    }
    best
}

} // verus!
