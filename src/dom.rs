use vstd::prelude::*;

use scraper::{Html, Selector};

use crate::check::{
    aggregate, aggregate_from, exists_outcome, lemma_aggregate_end, lemma_aggregate_start,
    lemma_aggregate_unfold, offer, outcome_view, regex_outcome, rules_outcome, OutcomeModel,
    WappTechCheckResult, check_rules,
};
use crate::pattern::{opt_string_view, Pattern};
use crate::tagged::Tagged;

verus! {

#[verifier::external_type_specification]
#[verifier::external_body]
pub struct ExSelector(Selector);

#[verifier::external_type_specification]
#[verifier::external_body]
pub struct ExHtml(Html);

/// Whether `selector` is a CSS selector group that the selector engine accepts.
pub uninterp spec fn selector_is_valid(selector: Seq<char>) -> bool;

/// The elements of the HTML document `document` that `selector` matches, in
/// the order the selector engine yields them; each as the values of the
/// attributes named in `attributes`
/// (in that order, `None` where it has no such attribute) and its text.
pub uninterp spec fn dom_select(
    document: Seq<char>,
    selector: Seq<char>,
    attributes: Seq<Seq<char>>,
) -> Seq<(Seq<Option<Seq<char>>>, Seq<char>)>;

/// A compiled CSS selector group, viewed as its source text.
#[derive(Debug)]
pub struct CssSelector {
    source: String,
    selector: Selector,
}

impl View for CssSelector {
    type V = Seq<char>;

    closed spec fn view(&self) -> Seq<char> {
        self.source@
    }
}

/// A parsed HTML document, viewed as its source text.
pub struct Document {
    source: String,
    html: Html,
}

impl View for Document {
    type V = Seq<char>;

    closed spec fn view(&self) -> Seq<char> {
        self.source@
    }
}

/// One element that a selector matched: the values of the attributes asked
/// for, and its text.
pub struct Element {
    pub attributes: Vec<Option<String>>,
    pub text: String,
}

pub open spec fn element_view(e: Element) -> (Seq<Option<Seq<char>>>, Seq<char>) {
    (e.attributes@.map_values(|o: Option<String>| opt_string_view(o)), e.text@)
}

pub open spec fn names_view(names: Seq<String>) -> Seq<Seq<char>> {
    names.map_values(|s: String| s@)
}

/// Relies on scraper::Selector::parse: whether a selector parses depends on its text alone.
#[verifier::external_body]
fn selector_parse(source: &str) -> (r: Option<CssSelector>)
    ensures
        r is Some <==> selector_is_valid(source@),
        r matches Some(s) ==> s@ == source@,
{
    Selector::parse(source).ok().map(|selector| CssSelector { source: source.to_owned(), selector })
}

/// Relies on scraper::Html::parse_document, which accepts any text.
#[verifier::external_body]
fn html_parse_document(source: &str) -> (r: Document)
    ensures
        r@ == source@,
{
    Document { source: source.to_owned(), html: Html::parse_document(source) }
}

/// Relies on scraper::Html::select, with scraper::ElementRef::attr and
/// scraper::ElementRef::text to read each element that it yields.
#[verifier::external_body]
fn html_select(document: &Document, selector: &CssSelector, attributes: &Vec<String>) -> (r: Vec<Element>)
    ensures
        r@.map_values(|e: Element| element_view(e)) == dom_select(
            document@,
            selector@,
            names_view(attributes@),
        ),
{
    document.html.select(&selector.selector).map(|el| Element {
        attributes: attributes.iter().map(|a| el.attr(a).map(|v| v.to_owned())).collect(),
        text: el.text().collect(),
    }).collect()
}

impl CssSelector {
    /// Compiles a CSS selector group.
    pub fn parse(source: &str) -> (r: Option<CssSelector>)
        ensures
            r is Some <==> selector_is_valid(source@),
            r matches Some(s) ==> s@ == source@,
    {
        selector_parse(source)
    }
}

impl Document {
    /// Parses an HTML document.
    pub fn parse(source: &str) -> (r: Document)
        ensures
            r@ == source@,
    {
        html_parse_document(source)
    }

    /// The elements that `selector` matches, each with the values of the
    /// attributes named in `attributes`, and its text.
    pub fn select(&self, selector: &CssSelector, attributes: &Vec<String>) -> (r: Vec<Element>)
        ensures
            r@.map_values(|e: Element| element_view(e)) == dom_select(
                self@,
                selector@,
                names_view(attributes@),
            ),
    {
        html_select(self, selector, attributes)
    }
}

/// The checks that apply to the elements one selector matches.
#[derive(Debug)]
pub struct WappTechDomPatttern {
    pub selector: CssSelector,
    /// Counts once for every matched element.
    pub exists: Tagged<()>,
    /// Run against the text of every matched element.
    pub text: Option<Tagged<Pattern>>,
    /// Run against the named attribute of every matched element that has it.
    pub attributes: Vec<(String, Vec<Tagged<Pattern>>)>,
}

pub open spec fn attribute_names(p: WappTechDomPatttern) -> Seq<Seq<char>> {
    p.attributes@.map_values(|a: (String, Vec<Tagged<Pattern>>)| a.0@)
}

pub open spec fn text_outcome(t: Option<Tagged<Pattern>>, text: Seq<char>) -> Option<OutcomeModel> {
    match t {
        Some(rule) => regex_outcome(rule, text),
        None => None,
    }
}

pub open spec fn attribute_value(values: Seq<Option<Seq<char>>>, j: int) -> Option<Seq<char>> {
    if 0 <= j < values.len() {
        values[j]
    } else {
        None
    }
}

/// The outcomes for one matched element: the existence check, the text rule,
/// then the rules of each attribute that the element has.
pub open spec fn element_outcomes(
    p: WappTechDomPatttern,
    el: (Seq<Option<Seq<char>>>, Seq<char>),
) -> Seq<Option<OutcomeModel>> {
    seq![exists_outcome(p.exists), text_outcome(p.text, el.1)] + Seq::new(
        p.attributes@.len(),
        |j: int|
            match attribute_value(el.0, j) {
                Some(v) => rules_outcome(p.attributes@[j].1@, v),
                None => None,
            },
    )
}

/// The outcome of one DOM rule on a document: the outcome of every matched
/// element, folded in the order the elements were matched.
pub open spec fn dom_rule_outcome(p: WappTechDomPatttern, document: Seq<char>) -> Option<OutcomeModel> {
    aggregate(
        dom_select(document, p.selector@, attribute_names(p)).map_values(
            |el: (Seq<Option<Seq<char>>>, Seq<char>)| aggregate(element_outcomes(p, el)),
        ),
    )
}

/// The outcome of a list of DOM rules on a document.
pub open spec fn dom_outcome(rules: Seq<WappTechDomPatttern>, document: Seq<char>) -> Option<OutcomeModel> {
    aggregate(rules.map_values(|p: WappTechDomPatttern| dom_rule_outcome(p, document)))
}

impl WappTechDomPatttern {
    fn check_element(&self, el: &Element) -> (r: Option<WappTechCheckResult>)
        ensures
            outcome_view(r) == aggregate(element_outcomes(*self, element_view(*el))),
    {
        let ghost all = element_outcomes(*self, element_view(*el));
        let n = self.attributes.len();
        let mut best: Option<WappTechCheckResult> = None;
        proof {
            lemma_aggregate_start(all);
            lemma_aggregate_unfold(None, all, 0);
        }
        if offer(&mut best, self.exists.check()) {
            return best;
        }
        proof {
            lemma_aggregate_unfold(outcome_view(best), all, 1);
        }
        let t = match &self.text {
            Some(rule) => rule.check(el.text.as_str()),
            None => None,
        };
        if offer(&mut best, t) {
            return best;
        }
        let mut j: usize = 0;
        while j < n
            invariant
                n == self.attributes@.len(),
                all == element_outcomes(*self, element_view(*el)),
                all.len() == n + 2,
                j <= n,
                aggregate(all) == aggregate_from(outcome_view(best), all.subrange(j + 2, all.len() as int)),
            decreases n - j,
        {
            let attr = &self.attributes[j];
            let o = if j < el.attributes.len() {
                match &el.attributes[j] {
                    Some(v) => check_rules(&attr.1, v.as_str()),
                    None => None,
                }
            } else {
                None
            };
            proof {
                lemma_aggregate_unfold(outcome_view(best), all, j + 2);
            }
            if offer(&mut best, o) {
                return best;
            }
            j = j + 1;
        }
        proof {
            lemma_aggregate_end(outcome_view(best), all);
        }
        best
    }

    /// Evaluates this rule on every element of `document` that its selector matches.
    pub fn check(&self, document: &Document) -> (r: Option<WappTechCheckResult>)
        ensures
            outcome_view(r) == dom_rule_outcome(*self, document@),
    {
        let mut names: Vec<String> = Vec::new();
        let mut k: usize = 0;
        while k < self.attributes.len()
            invariant
                k <= self.attributes@.len(),
                names@.len() == k,
                forall|j: int| 0 <= j < k ==> (#[trigger] names@[j])@ == self.attributes@[j].0@,
            decreases self.attributes@.len() - k,
        {
            names.push(self.attributes[k].0.clone());
            k = k + 1;
        }
        assert(names_view(names@) =~= attribute_names(*self));
        let elements = document.select(&self.selector, &names);
        let ghost els = elements@.map_values(|e: Element| element_view(e));
        let ghost all = els.map_values(
            |el: (Seq<Option<Seq<char>>>, Seq<char>)| aggregate(element_outcomes(*self, el)),
        );
        let n = elements.len();
        let mut best: Option<WappTechCheckResult> = None;
        let mut i: usize = 0;
        proof {
            lemma_aggregate_start(all);
        }
        while i < n
            invariant
                n == elements@.len(),
                els == elements@.map_values(|e: Element| element_view(e)),
                all == els.map_values(
                    |el: (Seq<Option<Seq<char>>>, Seq<char>)| aggregate(element_outcomes(*self, el)),
                ),
                els == dom_select(document@, self.selector@, attribute_names(*self)),
                i <= n,
                aggregate(all) == aggregate_from(outcome_view(best), all.subrange(i as int, n as int)),
            decreases n - i,
        {
            let o = self.check_element(&elements[i]);
            proof {
                lemma_aggregate_unfold(outcome_view(best), all, i as int);
            }
            if offer(&mut best, o) {
                return best;
            }
            i = i + 1;
        }
        proof {
            lemma_aggregate_end(outcome_view(best), all);
        }
        best
    }
}

/// Evaluates DOM rules in order against `document`.
pub fn check_dom_rules(rules: &Vec<WappTechDomPatttern>, document: &Document) -> (r: Option<WappTechCheckResult>)
    ensures
        outcome_view(r) == dom_outcome(rules@, document@),
{
    let ghost all = rules@.map_values(|p: WappTechDomPatttern| dom_rule_outcome(p, document@));
    let n = rules.len();
    let mut best: Option<WappTechCheckResult> = None;
    let mut i: usize = 0;
    proof {
        lemma_aggregate_start(all);
    }
    while i < n
        invariant
            n == rules@.len(),
            all == rules@.map_values(|p: WappTechDomPatttern| dom_rule_outcome(p, document@)),
            i <= n,
            aggregate(all) == aggregate_from(outcome_view(best), all.subrange(i as int, n as int)),
        decreases n - i,
    {
        let o = rules[i].check(document);
        proof {
            lemma_aggregate_unfold(outcome_view(best), all, i as int);
        }
        if offer(&mut best, o) {
            return best;
        }
        i = i + 1;
    }
    proof {
        lemma_aggregate_end(outcome_view(best), all);
    }
    best
}

} // verus!
