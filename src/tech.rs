use vstd::prelude::*;

use crate::check::{
    aggregate, aggregate_from, check_keyed, check_rules, keyed_outcome, lemma_aggregate_end,
    lemma_aggregate_start, lemma_aggregate_unfold, offer, outcome_view, rules_outcome, OutcomeModel,
    WappTechCheckResult,
};
use crate::compile::{
    compile_rule_map, compile_rules, compile_tagged_strings, DomSource,
};
use crate::dom::{check_dom_rules, dom_outcome, Document, WappTechDomPatttern};
use crate::pattern::Pattern;
use crate::tagged::Tagged;

verus! {

/// Cost indicator and available pricing models; for paid products only.
#[derive(Debug, Clone, Copy, PartialEq, Eq)]
pub enum WappTechPricing {
    /// Less than US $100 / mo
    Low,
    /// Between US $100 - $1,000 / mo
    Mid,
    /// More than US $1,000 / mo
    High,
    /// Free plan available
    Freemium,
    /// One-time payments accepted
    Onetime,
    /// Subscriptions available
    Recurring,
    /// Price on asking
    Poa,
    /// Pay as you go (e.g. commissions or usage-based fees)
    Payg,
}

/// One technology: its metadata, and its compiled rules for each signal category.
#[derive(Debug)]
pub struct WappTech {
    pub name: String,
    /// One or more category ids.
    pub cats: Vec<i32>,
    /// URL of the technology's website.
    pub website: String,
    pub description: Option<String>,
    pub cpe: Option<String>,
    /// Offered as a Software-as-a-Service.
    pub saas: Option<bool>,
    /// Has an open-source license.
    pub oss: Option<bool>,
    pub pricing: Vec<WappTechPricing>,
    pub cert_issuer: Option<String>,
    /// Technologies that the presence of this one implies.
    pub implies: Vec<Tagged<String>>,
    /// Detection only counts if these technologies were identified.
    pub requires: Vec<String>,
    /// Detection only counts if a technology of these categories was identified.
    pub requires_category: Vec<i32>,
    /// Technologies that the presence of this one excludes.
    pub excludes: Vec<String>,
    /// Rules on cookie values, by cookie name.
    pub cookies: Vec<(String, Vec<Tagged<Pattern>>)>,
    /// Rules on the elements that selectors match.
    pub dom: Vec<WappTechDomPatttern>,
    /// Rules on response header values, by header name.
    pub headers: Vec<(String, Vec<Tagged<Pattern>>)>,
    /// Rules on the HTML source.
    pub html: Vec<Tagged<Pattern>>,
    /// Rules on the plain text of the page.
    pub text: Vec<Tagged<Pattern>>,
    /// Rules on the full URL of the page.
    pub url: Vec<Tagged<Pattern>>,
    /// Rules on meta tag contents, by meta name.
    pub meta: Vec<(String, Vec<Tagged<Pattern>>)>,
    /// Rules on the URLs of the page's scripts.
    pub script_src: Vec<Tagged<Pattern>>,
    /// Rules on the source code of the page's scripts.
    pub scripts: Vec<Tagged<Pattern>>,
}

/// A technology as authored: metadata, and the source strings of its rules.
pub struct WappTechSource {
    pub name: String,
    pub cats: Vec<i32>,
    pub website: String,
    pub description: Option<String>,
    pub cpe: Option<String>,
    pub saas: Option<bool>,
    pub oss: Option<bool>,
    pub pricing: Vec<WappTechPricing>,
    pub cert_issuer: Option<String>,
    pub implies: Vec<String>,
    pub requires: Vec<String>,
    pub requires_category: Vec<i32>,
    pub excludes: Vec<String>,
    pub cookies: Vec<(String, Vec<String>)>,
    pub dom: Vec<DomSource>,
    pub headers: Vec<(String, Vec<String>)>,
    pub html: Vec<String>,
    pub text: Vec<String>,
    pub url: Vec<String>,
    pub meta: Vec<(String, Vec<String>)>,
    pub script_src: Vec<String>,
    pub scripts: Vec<String>,
}

/// What a page exposes; each signal category may be absent.
pub struct WappPage {
    /// The full URL.
    pub url: Option<String>,
    /// Response headers, as name and value.
    pub headers: Option<Vec<(String, String)>>,
    /// Cookies, as name and value.
    pub cookies: Option<Vec<(String, String)>>,
    /// The parsed document, for selector queries.
    pub dom: Option<Document>,
    /// The HTML source.
    pub html: Option<String>,
    /// The plain-text rendering.
    pub text: Option<String>,
    /// The URLs of the page's scripts.
    pub script_src: Option<Vec<String>>,
    /// The bodies of the page's inline and external scripts.
    pub scripts: Option<Vec<String>>,
    /// Meta tags, as name and content.
    pub meta: Option<Vec<(String, String)>>,
}

impl WappPage {
    /// A page that exposes nothing.
    pub fn new() -> (r: WappPage)
        ensures
            r.url is None && r.headers is None && r.cookies is None && r.dom is None,
            r.html is None && r.text is None && r.script_src is None && r.scripts is None,
            r.meta is None,
    {
        WappPage {
            url: None,
            headers: None,
            cookies: None,
            dom: None,
            html: None,
            text: None,
            script_src: None,
            scripts: None,
            meta: None,
        }
    }
}

/// The outcome of `rules` on each of `inputs`, folded in order.
pub open spec fn each_outcome(rules: Seq<Tagged<Pattern>>, inputs: Seq<String>) -> Option<OutcomeModel> {
    aggregate(inputs.map_values(|s: String| rules_outcome(rules, s@)))
}

/// The outcome of each signal category, in the fixed order URL, headers,
/// cookies, DOM, HTML, text, script sources, scripts, meta; a category that
/// the page does not expose gives none.
pub open spec fn category_outcomes(tech: WappTech, page: WappPage) -> Seq<Option<OutcomeModel>> {
    seq![
        match page.url { Some(u) => rules_outcome(tech.url@, u@), None => None },
        match page.headers { Some(h) => keyed_outcome(tech.headers@, h@, true), None => None },
        match page.cookies { Some(c) => keyed_outcome(tech.cookies@, c@, false), None => None },
        match page.dom { Some(d) => dom_outcome(tech.dom@, d@), None => None },
        match page.html { Some(h) => rules_outcome(tech.html@, h@), None => None },
        match page.text { Some(t) => rules_outcome(tech.text@, t@), None => None },
        match page.script_src { Some(s) => each_outcome(tech.script_src@, s@), None => None },
        match page.scripts { Some(s) => each_outcome(tech.scripts@, s@), None => None },
        match page.meta { Some(m) => keyed_outcome(tech.meta@, m@, false), None => None },
    ]
}

/// The outcome of a technology on a page.
pub open spec fn tech_outcome(tech: WappTech, page: WappPage) -> Option<OutcomeModel> {
    aggregate(category_outcomes(tech, page))
}

fn check_each(rules: &Vec<Tagged<Pattern>>, inputs: &Vec<String>) -> (r: Option<WappTechCheckResult>)
    ensures
        outcome_view(r) == each_outcome(rules@, inputs@),
{
    let ghost all = inputs@.map_values(|s: String| rules_outcome(rules@, s@));
    let n = inputs.len();
    let mut best: Option<WappTechCheckResult> = None;
    let mut i: usize = 0;
    proof {
        lemma_aggregate_start(all);
    }
    while i < n
        invariant
            n == inputs@.len(),
            all == inputs@.map_values(|s: String| rules_outcome(rules@, s@)),
            i <= n,
            aggregate(all) == aggregate_from(outcome_view(best), all.subrange(i as int, n as int)),
        decreases n - i,
    {
        let o = check_rules(rules, inputs[i].as_str());
        proof {
            lemma_aggregate_unfold(outcome_view(best), all, i as int);
        }
        if offer(&mut best, o) {
            return best;
        }
        i = i + 1;
    }
    proof {
        lemma_aggregate_end(outcome_view(best), all);
    }
    best
}

impl WappTech {
    /// Compiles a technology from its source strings. Rules that do not
    /// compile are left out; so is a DOM rule whose selector does not.
    pub fn from_source(source: WappTechSource) -> (r: WappTech)
        ensures
            r.name == source.name,
            r.cats == source.cats,
            r.website == source.website,
            r.description == source.description,
            r.cpe == source.cpe,
            r.saas == source.saas,
            r.oss == source.oss,
            r.pricing == source.pricing,
            r.cert_issuer == source.cert_issuer,
            r.requires == source.requires,
            r.requires_category == source.requires_category,
            r.excludes == source.excludes,
            r.implies@.map_values(|t: Tagged<String>| crate::compile::string_rule_model(t))
                == crate::compile::compiled_tagged_strings(crate::compile::strings_view(source.implies@)),
            crate::compile::rules_view(r.url@) == crate::compile::compiled_rules(
                crate::compile::strings_view(source.url@),
            ),
            crate::compile::rules_view(r.html@) == crate::compile::compiled_rules(
                crate::compile::strings_view(source.html@),
            ),
            crate::compile::rules_view(r.text@) == crate::compile::compiled_rules(
                crate::compile::strings_view(source.text@),
            ),
            crate::compile::rules_view(r.script_src@) == crate::compile::compiled_rules(
                crate::compile::strings_view(source.script_src@),
            ),
            crate::compile::rules_view(r.scripts@) == crate::compile::compiled_rules(
                crate::compile::strings_view(source.scripts@),
            ),
            crate::compile::map_compiled(r.headers@, source.headers@),
            crate::compile::map_compiled(r.cookies@, source.cookies@),
            crate::compile::map_compiled(r.meta@, source.meta@),
            crate::compile::dom_rules_compiled(r.dom@, source.dom@),
    {
        let implies = compile_tagged_strings(&source.implies);
        let cookies = compile_rule_map(&source.cookies);
        let headers = compile_rule_map(&source.headers);
        let meta = compile_rule_map(&source.meta);
        let html = compile_rules(&source.html);
        let text = compile_rules(&source.text);
        let url = compile_rules(&source.url);
        let script_src = compile_rules(&source.script_src);
        let scripts = compile_rules(&source.scripts);
        let mut dom: Vec<WappTechDomPatttern> = Vec::new();
        let mut i: usize = 0;
        while i < source.dom.len()
            invariant
                i <= source.dom@.len(),
                crate::compile::dom_rules_compiled(dom@, source.dom@.subrange(0, i as int)),
            decreases source.dom@.len() - i,
        {
            let ghost before = dom@;
            let ghost prefix = source.dom@.subrange(0, i + 1);
            assert(prefix.drop_last() =~= source.dom@.subrange(0, i as int));
            assert(prefix.last() == source.dom@[i as int]);
            match WappTechDomPatttern::from_source(&source.dom[i]) {
                Ok(p) => {
                    dom.push(p);
                    assert(dom@.drop_last() =~= before);
                },
                Err(_) => {},
            }
            i = i + 1;
        }
        assert(source.dom@.subrange(0, source.dom@.len() as int) =~= source.dom@);
        WappTech {
            name: source.name,
            cats: source.cats,
            website: source.website,
            description: source.description,
            cpe: source.cpe,
            saas: source.saas,
            oss: source.oss,
            pricing: source.pricing,
            cert_issuer: source.cert_issuer,
            implies,
            requires: source.requires,
            requires_category: source.requires_category,
            excludes: source.excludes,
            cookies,
            dom,
            headers,
            html,
            text,
            url,
            meta,
            script_src,
            scripts,
        }
    }

    pub fn check_url(&self, url: &str) -> (r: Option<WappTechCheckResult>)
        ensures
            outcome_view(r) == rules_outcome(self.url@, url@),
    {
        check_rules(&self.url, url)
    }

    /// Header names are compared without regard to ASCII case.
    pub fn check_headers(&self, headers: &Vec<(String, String)>) -> (r: Option<WappTechCheckResult>)
        ensures
            outcome_view(r) == keyed_outcome(self.headers@, headers@, true),
    {
        check_keyed(&self.headers, headers, true)
    }

    pub fn check_cookies(&self, cookies: &Vec<(String, String)>) -> (r: Option<WappTechCheckResult>)
        ensures
            outcome_view(r) == keyed_outcome(self.cookies@, cookies@, false),
    {
        check_keyed(&self.cookies, cookies, false)
    }

    pub fn check_dom(&self, dom: &Document) -> (r: Option<WappTechCheckResult>)
        ensures
            outcome_view(r) == dom_outcome(self.dom@, dom@),
    {
        check_dom_rules(&self.dom, dom)
    }

    pub fn check_html(&self, html: &str) -> (r: Option<WappTechCheckResult>)
        ensures
            outcome_view(r) == rules_outcome(self.html@, html@),
    {
        check_rules(&self.html, html)
    }

    pub fn check_text(&self, text: &str) -> (r: Option<WappTechCheckResult>)
        ensures
            outcome_view(r) == rules_outcome(self.text@, text@),
    {
        check_rules(&self.text, text)
    }

    pub fn check_script_src(&self, script_src: &Vec<String>) -> (r: Option<WappTechCheckResult>)
        ensures
            outcome_view(r) == each_outcome(self.script_src@, script_src@),
    {
        check_each(&self.script_src, script_src)
    }

    pub fn check_scripts(&self, scripts: &Vec<String>) -> (r: Option<WappTechCheckResult>)
        ensures
            outcome_view(r) == each_outcome(self.scripts@, scripts@),
    {
        check_each(&self.scripts, scripts)
    }

    pub fn check_meta(&self, meta: &Vec<(String, String)>) -> (r: Option<WappTechCheckResult>)
        ensures
            outcome_view(r) == keyed_outcome(self.meta@, meta@, false),
    {
        check_keyed(&self.meta, meta, false)
    }

    /// Evaluates every category that the page exposes, in the fixed category
    /// order, and folds their outcomes; stops at the first at full confidence.
    pub fn check(&self, page: &WappPage) -> (r: Option<WappTechCheckResult>)
        ensures
            outcome_view(r) == tech_outcome(*self, *page),
    {
        let ghost all = category_outcomes(*self, *page);
        let mut best: Option<WappTechCheckResult> = None;
        proof {
            lemma_aggregate_start(all);
            lemma_aggregate_unfold(outcome_view(best), all, 0);
        }
        let o = match &page.url {
            Some(u) => self.check_url(u.as_str()),
            None => None,
        };
        if offer(&mut best, o) {
            return best;
        }
        proof {
            lemma_aggregate_unfold(outcome_view(best), all, 1);
        }
        let o = match &page.headers {
            Some(h) => self.check_headers(h),
            None => None,
        };
        if offer(&mut best, o) {
            return best;
        }
        proof {
            lemma_aggregate_unfold(outcome_view(best), all, 2);
        }
        let o = match &page.cookies {
            Some(c) => self.check_cookies(c),
            None => None,
        };
        if offer(&mut best, o) {
            return best;
        }
        proof {
            lemma_aggregate_unfold(outcome_view(best), all, 3);
        }
        let o = match &page.dom {
            Some(d) => self.check_dom(d),
            None => None,
        };
        if offer(&mut best, o) {
            return best;
        }
        proof {
            lemma_aggregate_unfold(outcome_view(best), all, 4);
        }
        let o = match &page.html {
            Some(h) => self.check_html(h.as_str()),
            None => None,
        };
        if offer(&mut best, o) {
            return best;
        }
        proof {
            lemma_aggregate_unfold(outcome_view(best), all, 5);
        }
        let o = match &page.text {
            Some(t) => self.check_text(t.as_str()),
            None => None,
        };
        if offer(&mut best, o) {
            return best;
        }
        proof {
            lemma_aggregate_unfold(outcome_view(best), all, 6);
        }
        let o = match &page.script_src {
            Some(s) => self.check_script_src(s),
            None => None,
        };
        if offer(&mut best, o) {
            return best;
        }
        proof {
            lemma_aggregate_unfold(outcome_view(best), all, 7);
        }
        let o = match &page.scripts {
            Some(s) => self.check_scripts(s),
            None => None,
        };
        if offer(&mut best, o) {
            return best;
        }
        proof {
            lemma_aggregate_unfold(outcome_view(best), all, 8);
        }
        let o = match &page.meta {
            Some(m) => self.check_meta(m),
            None => None,
        };
        if offer(&mut best, o) {
            return best;
        }
        proof {
            lemma_aggregate_end(outcome_view(best), all);
        }
        best
    }
}

} // verus!
