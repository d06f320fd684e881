use vstd::prelude::*;

use crate::dom::{selector_is_valid, CssSelector, WappTechDomPatttern};
use crate::error::{ParseError, ParseErrorModel};
use crate::pattern::{regex_is_valid, Pattern};
use crate::tagged::{parse_tags, tags_result_view, tags_spec, Tagged};
use crate::version::{opt_version_view, ValueModel, VersionModel, WappTechVersionPattern, WappTechVersionValue};

verus! {

/// A compiled rule as plain values: its bare content, confidence and version.
pub type RuleModel = (Seq<char>, i32, Option<VersionModel>);

pub open spec fn rule_model<T: View<V = Seq<char>>>(t: Tagged<T>) -> RuleModel {
    (t.inner@, t.confidence, opt_version_view(t.version))
}

pub open spec fn string_rule_model(t: Tagged<String>) -> RuleModel {
    (t.inner@, t.confidence, opt_version_view(t.version))
}

/// What a regular-expression rule compiles to.
pub open spec fn regex_rule_spec(s: Seq<char>) -> Result<RuleModel, ParseErrorModel> {
    match tags_spec(s) {
        Err(e) => Err(e),
        Ok((content, c, v)) => if regex_is_valid(content) {
            Ok((content, c, v))
        } else {
            Err(ParseErrorModel::InvalidPattern(content))
        },
    }
}

/// The rules of `sources` that compile, in order; the others are left out.
pub open spec fn compiled_rules(sources: Seq<Seq<char>>) -> Seq<RuleModel>
    decreases sources.len(),
{
    if sources.len() == 0 {
        Seq::empty()
    } else {
        compiled_rules(sources.drop_last()) + match regex_rule_spec(sources.last()) {
            Ok(m) => seq![m],
            Err(_) => Seq::empty(),
        }
    }
}

/// The strings of `sources` whose directives are valid, in order.
pub open spec fn compiled_tagged_strings(sources: Seq<Seq<char>>) -> Seq<RuleModel>
    decreases sources.len(),
{
    if sources.len() == 0 {
        Seq::empty()
    } else {
        compiled_tagged_strings(sources.drop_last()) + match tags_spec(sources.last()) {
            Ok(m) => seq![m],
            Err(_) => Seq::empty(),
        }
    }
}

pub open spec fn strings_view(s: Seq<String>) -> Seq<Seq<char>> {
    s.map_values(|x: String| x@)
}

pub open spec fn rules_view(r: Seq<Tagged<Pattern>>) -> Seq<RuleModel> {
    r.map_values(|t: Tagged<Pattern>| rule_model(t))
}

/// Compiles one regular-expression rule.
pub fn compile_rule(source: &str) -> (r: Result<Tagged<Pattern>, ParseError>)
    ensures
        match r {
            Ok(t) => regex_rule_spec(source@) == Ok::<RuleModel, ParseErrorModel>(rule_model(t)),
            Err(e) => regex_rule_spec(source@) == Err::<RuleModel, ParseErrorModel>(e@),
        },
{
    let tags = parse_tags(source);
    assert(tags_result_view(tags) == tags_spec(source@));
    match tags {
        Err(e) => Err(e),
        Ok((content, confidence, version)) => match Pattern::new(content.as_str()) {
            Some(inner) => Ok(Tagged { inner, confidence, version }),
            None => Err(ParseError::InvalidPattern(content)),
        },
    }
}

/// Compiles a list of regular-expression rules, leaving out those that fail.
pub fn compile_rules(sources: &Vec<String>) -> (r: Vec<Tagged<Pattern>>)
    ensures
        rules_view(r@) == compiled_rules(strings_view(sources@)),
{
    let mut out: Vec<Tagged<Pattern>> = Vec::new();
    let mut i: usize = 0;
    while i < sources.len()
        invariant
            i <= sources@.len(),
            rules_view(out@) == compiled_rules(strings_view(sources@).subrange(0, i as int)),
        decreases sources@.len() - i,
    {
        let ghost before = out@;
        let ghost prefix = strings_view(sources@).subrange(0, i + 1);
        assert(prefix.drop_last() =~= strings_view(sources@).subrange(0, i as int));
        match compile_rule(sources[i].as_str()) {
            Ok(t) => {
                out.push(t);
                assert(rules_view(out@) =~= rules_view(before) + seq![rule_model(t)]);
            },
            Err(_) => {},
        }
        i = i + 1;
    }
    assert(strings_view(sources@).subrange(0, sources@.len() as int) =~= strings_view(sources@));
    out
}

/// Reads the directives of each string, leaving out those that fail.
pub fn compile_tagged_strings(sources: &Vec<String>) -> (r: Vec<Tagged<String>>)
    ensures
        r@.map_values(|t: Tagged<String>| string_rule_model(t)) == compiled_tagged_strings(
            strings_view(sources@),
        ),
{
    let mut out: Vec<Tagged<String>> = Vec::new();
    let mut i: usize = 0;
    while i < sources.len()
        invariant
            i <= sources@.len(),
            out@.map_values(|t: Tagged<String>| string_rule_model(t)) == compiled_tagged_strings(
                strings_view(sources@).subrange(0, i as int),
            ),
        decreases sources@.len() - i,
    {
        let ghost before = out@;
        let ghost prefix = strings_view(sources@).subrange(0, i + 1);
        assert(prefix.drop_last() =~= strings_view(sources@).subrange(0, i as int));
        let tags = parse_tags(sources[i].as_str());
        assert(tags_result_view(tags) == tags_spec(sources@[i as int]@));
        match tags {
            Ok((inner, confidence, version)) => {
                let t = Tagged { inner, confidence, version };
                out.push(t);
                assert(out@.map_values(|t: Tagged<String>| string_rule_model(t)) =~= before.map_values(
                    |t: Tagged<String>| string_rule_model(t),
                ) + seq![string_rule_model(t)]);
            },
            Err(_) => {},
        }
        i = i + 1;
    }
    assert(strings_view(sources@).subrange(0, sources@.len() as int) =~= strings_view(sources@));
    out
}

/// Every key of `sources` stays, in order, with the rules of its list that compile.
pub open spec fn map_compiled(r: Seq<(String, Vec<Tagged<Pattern>>)>, sources: Seq<(String, Vec<String>)>) -> bool {
    &&& r.len() == sources.len()
    &&& forall|i: int|
        0 <= i < r.len() ==> {
            &&& (#[trigger] r[i]).0@ == sources[i].0@
            &&& rules_view(r[i].1@) == compiled_rules(strings_view(sources[i].1@))
        }
}

/// Compiles keyed rule lists; every key stays, with the rules of its list that compile.
pub fn compile_rule_map(sources: &Vec<(String, Vec<String>)>) -> (r: Vec<(String, Vec<Tagged<Pattern>>)>)
    ensures
        map_compiled(r@, sources@),
{
    let mut out: Vec<(String, Vec<Tagged<Pattern>>)> = Vec::new();
    let mut i: usize = 0;
    while i < sources.len()
        invariant
            i <= sources@.len(),
            out@.len() == i,
            forall|j: int|
                0 <= j < i ==> {
                    &&& (#[trigger] out@[j]).0@ == sources@[j].0@
                    &&& rules_view(out@[j].1@) == compiled_rules(strings_view(sources@[j].1@))
                },
        decreases sources@.len() - i,
    {
        let entry = &sources[i];
        out.push((entry.0.clone(), compile_rules(&entry.1)));
        i = i + 1;
    }
    out
}

/// The version of an existence check can only be literal text.
pub open spec fn exists_version_ok(v: Option<VersionModel>) -> bool {
    match v {
        None => true,
        Some(VersionModel::Always(ValueModel::Const(_))) => true,
        _ => false,
    }
}

/// What the selector string of a DOM rule compiles to: the selector, and the
/// confidence and version of its existence check.
pub open spec fn dom_selector_spec(s: Seq<char>) -> Result<RuleModel, ParseErrorModel> {
    match tags_spec(s) {
        Err(e) => Err(e),
        Ok((content, c, v)) => if !selector_is_valid(content) {
            Err(ParseErrorModel::InvalidSelector(content))
        } else if !exists_version_ok(v) {
            Err(ParseErrorModel::VersionNeedsCapture)
        } else {
            Ok((content, c, v))
        },
    }
}

/// What the `exists` string of a DOM rule compiles to: its confidence and version.
pub open spec fn exists_spec(s: Seq<char>) -> Result<(i32, Option<VersionModel>), ParseErrorModel> {
    match tags_spec(s) {
        Err(e) => Err(e),
        Ok((content, c, v)) => if content.len() != 0 {
            Err(ParseErrorModel::UnexpectedContent(content))
        } else if !exists_version_ok(v) {
            Err(ParseErrorModel::VersionNeedsCapture)
        } else {
            Ok((c, v))
        },
    }
}

fn exists_version_ok_exec(v: &Option<WappTechVersionPattern>) -> (r: bool)
    ensures
        r == exists_version_ok(opt_version_view(*v)),
{
    match v {
        None => true,
        Some(WappTechVersionPattern::Always(WappTechVersionValue::Const(_))) => true,
        _ => false,
    }
}

fn compile_exists(source: &str) -> (r: Result<Tagged<()>, ParseError>)
    ensures
        match r {
            Ok(t) => exists_spec(source@) == Ok::<(i32, Option<VersionModel>), ParseErrorModel>(
                (t.confidence, opt_version_view(t.version)),
            ),
            Err(e) => exists_spec(source@) == Err::<(i32, Option<VersionModel>), ParseErrorModel>(e@),
        },
{
    let tags = parse_tags(source);
    assert(tags_result_view(tags) == tags_spec(source@));
    match tags {
        Err(e) => Err(e),
        Ok((content, confidence, version)) => {
            if content.unicode_len() != 0 {
                Err(ParseError::UnexpectedContent(content))
            } else if !exists_version_ok_exec(&version) {
                Err(ParseError::VersionNeedsCapture)
            } else {
                Ok(Tagged::new(confidence, version))
            }
        },
    }
}

/// The source strings of one DOM rule: a selector, and the optional checks on
/// the elements it matches.
pub struct DomSource {
    pub selector: String,
    pub exists: Option<String>,
    pub text: Option<String>,
    pub attributes: Vec<(String, Vec<String>)>,
}

pub open spec fn opt_rule_view(t: Option<Tagged<Pattern>>) -> Option<RuleModel> {
    match t {
        Some(x) => Some(rule_model(x)),
        None => None,
    }
}

/// `p` is what the DOM rule `source` compiles to, given that its selector compiles.
pub open spec fn dom_compiled(p: WappTechDomPatttern, source: DomSource) -> bool {
    let sel = dom_selector_spec(source.selector@)->Ok_0;
    &&& p.selector@ == sel.0
    &&& (p.exists.confidence, opt_version_view(p.exists.version)) == match source.exists {
        Some(s) => match exists_spec(s@) {
            Ok(m) => m,
            Err(_) => (sel.1, sel.2),
        },
        None => (sel.1, sel.2),
    }
    &&& opt_rule_view(p.text) == match source.text {
        Some(s) => match regex_rule_spec(s@) {
            Ok(m) => Some(m),
            Err(_) => None,
        },
        None => None,
    }
    &&& map_compiled(p.attributes@, source.attributes@)
}

/// `r` holds, in order, the compiled form of each rule of `sources` whose
/// selector compiles.
pub open spec fn dom_rules_compiled(r: Seq<WappTechDomPatttern>, sources: Seq<DomSource>) -> bool
    decreases sources.len(),
{
    if sources.len() == 0 {
        r.len() == 0
    } else if dom_selector_spec(sources.last().selector@) is Ok {
        &&& r.len() > 0
        &&& dom_compiled(r.last(), sources.last())
        &&& dom_rules_compiled(r.drop_last(), sources.drop_last())
    } else {
        dom_rules_compiled(r, sources.drop_last())
    }
}

impl WappTechDomPatttern {
    /// A DOM rule with only an existence check, from a selector string with directives.
    pub fn from_selector(input: &str) -> (r: Result<Self, ParseError>)
        ensures
            match r {
                Ok(p) => {
                    &&& dom_selector_spec(input@) == Ok::<RuleModel, ParseErrorModel>(
                        (p.selector@, p.exists.confidence, opt_version_view(p.exists.version)),
                    )
                    &&& p.text is None
                    &&& p.attributes@.len() == 0
                },
                Err(e) => dom_selector_spec(input@) == Err::<RuleModel, ParseErrorModel>(e@),
            },
    {
        let tags = parse_tags(input);
        assert(tags_result_view(tags) == tags_spec(input@));
        match tags {
            Err(e) => Err(e),
            Ok((content, confidence, version)) => match CssSelector::parse(content.as_str()) {
                None => Err(ParseError::InvalidSelector(content)),
                Some(selector) => {
                    if !exists_version_ok_exec(&version) {
                        Err(ParseError::VersionNeedsCapture)
                    } else {
                        Ok(
                            WappTechDomPatttern {
                                selector,
                                exists: Tagged::new(confidence, version),
                                text: None,
                                attributes: Vec::new(),
                            },
                        )
                    }
                },
            },
        }
    }

    /// A DOM rule from its source strings. Only a bad selector fails the rule;
    /// an `exists` string that does not compile leaves the selector's own
    /// check in place, a text rule that does not compile is dropped, and so is
    /// each attribute rule that does not compile.
    pub fn from_source(source: &DomSource) -> (r: Result<Self, ParseError>)
        ensures
            match r {
                Ok(p) => dom_selector_spec(source.selector@) is Ok && dom_compiled(p, *source),
                Err(e) => dom_selector_spec(source.selector@) == Err::<RuleModel, ParseErrorModel>(e@),
            },
    {
        let mut p = match WappTechDomPatttern::from_selector(source.selector.as_str()) {
            Ok(p) => p,
            Err(e) => {
                return Err(e);
            },
        };
        match &source.exists {
            Some(s) => match compile_exists(s.as_str()) {
                Ok(t) => {
                    p.exists = t;
                },
                Err(_) => {},
            },
            None => {},
        }
        match &source.text {
            Some(s) => match compile_rule(s.as_str()) {
                Ok(t) => {
                    p.text = Some(t);
                },
                Err(_) => {},
            },
            None => {},
        }
        p.attributes = compile_rule_map(&source.attributes);
        Ok(p)
    }
}

} // verus!
