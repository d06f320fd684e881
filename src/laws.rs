use vstd::prelude::*;

use crate::check::{aggregate, aggregate_from, best_confidence, is_final, step, OutcomeModel};
use crate::error::ParseErrorModel;
use crate::tagged::{
    confidence_key, directive_spec, directives_spec, find_delim, tags_spec, version_key,
};
use crate::text::{find_from, lemma_find_from};
use crate::version::VersionModel;
use crate::tech::{tech_outcome, WappPage, WappTech};

verus! {

proof fn lemma_final_absorbs_from(best: Option<OutcomeModel>, s: Seq<Option<OutcomeModel>>, t: Seq<Option<OutcomeModel>>)
    requires
        exists|k: int| 0 <= k < s.len() && is_final(#[trigger] s[k]),
    ensures
        aggregate_from(best, s + t) == aggregate_from(best, s),
    decreases s.len(),
{
    let k = choose|k: int| 0 <= k < s.len() && is_final(#[trigger] s[k]);
    assert((s + t)[0] == s[0]);
    if !is_final(s[0]) {
        assert((s + t).drop_first() =~= s.drop_first() + t);
        assert(is_final(s.drop_first()[k - 1]));
        lemma_final_absorbs_from(step(best, s[0]), s.drop_first(), t);
    }
}

/// Once an outcome at full confidence has been seen, nothing that follows it
/// changes the folded outcome: the rules after it need not be evaluated.
pub proof fn law_full_confidence_short_circuits(s: Seq<Option<OutcomeModel>>, t: Seq<Option<OutcomeModel>>)
    requires
        exists|k: int| 0 <= k < s.len() && is_final(#[trigger] s[k]),
    ensures
        aggregate(s + t) == aggregate(s),
{
    lemma_final_absorbs_from(None, s, t);
}

/// Every outcome present has a valid confidence below 100.
pub open spec fn all_partial(s: Seq<Option<OutcomeModel>>) -> bool {
    forall|i: int| 0 <= i < s.len() ==> (#[trigger] s[i] matches Some(o) ==> 1 <= o.confidence < 100)
}

proof fn lemma_max_from(best: Option<OutcomeModel>, s: Seq<Option<OutcomeModel>>)
    requires
        all_partial(s),
        best matches Some(b) ==> 1 <= b.confidence < 100,
    ensures
        aggregate_from(best, s) is None <==> (best is None && forall|i: int| 0 <= i < s.len() ==> #[trigger] s[i] is None),
        aggregate_from(best, s) matches Some(a) ==> {
            &&& (best == Some(a) || exists|i: int| 0 <= i < s.len() && #[trigger] s[i] == Some(a))
            &&& best_confidence(best) <= a.confidence
            &&& forall|i: int| 0 <= i < s.len() ==> (#[trigger] s[i] matches Some(o) ==> o.confidence <= a.confidence)
        },
    decreases s.len(),
{
    if s.len() > 0 {
        let rest = s.drop_first();
        assert(all_partial(rest)) by {
            assert forall|i: int| 0 <= i < rest.len() implies (#[trigger] rest[i] matches Some(o) ==> 1 <= o.confidence < 100) by {
                assert(rest[i] == s[i + 1]);
            }
        }
        assert(s[0] matches Some(o) ==> 1 <= o.confidence < 100);
        let next = step(best, s[0]);
        lemma_max_from(next, rest);
        let r = aggregate_from(best, s);
        assert(r == aggregate_from(next, rest));
        assert forall|i: int| 0 <= i < s.len() && i > 0 implies #[trigger] s[i] == rest[i - 1] by {}
        if r is None {
            assert forall|i: int| 0 <= i < s.len() implies #[trigger] s[i] is None by {
                if i > 0 {
                    assert(s[i] == rest[i - 1]);
                }
            }
        }
        if let Some(a) = r {
            assert forall|i: int| 0 <= i < s.len() implies (#[trigger] s[i] matches Some(o) ==> o.confidence <= a.confidence) by {
                if i > 0 {
                    assert(s[i] == rest[i - 1]);
                }
            }
            if next != Some(a) {
                let j = choose|j: int| 0 <= j < rest.len() && #[trigger] rest[j] == Some(a);
                assert(s[j + 1] == Some(a));
            } else if best != Some(a) {
                assert(s[0] == Some(a));
            }
        }
        if (forall|i: int| 0 <= i < s.len() ==> #[trigger] s[i] is None) && best is None {
            assert forall|i: int| 0 <= i < rest.len() implies #[trigger] rest[i] is None by {
                assert(rest[i] == s[i + 1]);
            }
        }
    }
}

/// When no outcome reaches full confidence, the folded outcome is one of
/// the outcomes with the highest confidence, and there is one whenever any
/// outcome is present.
pub proof fn law_partial_confidences_take_the_maximum(s: Seq<Option<OutcomeModel>>)
    requires
        all_partial(s),
    ensures
        aggregate(s) is None <==> forall|i: int| 0 <= i < s.len() ==> #[trigger] s[i] is None,
        aggregate(s) matches Some(a) ==> {
            &&& exists|i: int| 0 <= i < s.len() && #[trigger] s[i] == Some(a)
            &&& forall|i: int| 0 <= i < s.len() ==> (#[trigger] s[i] matches Some(o) ==> o.confidence <= a.confidence)
        },
{
    lemma_max_from(None, s);
}

/// When no outcome reaches full confidence, the order of the outcomes does
/// not change the folded confidence.
pub proof fn law_partial_confidence_ignores_order(s1: Seq<Option<OutcomeModel>>, s2: Seq<Option<OutcomeModel>>)
    requires
        all_partial(s1),
        s1.to_multiset() == s2.to_multiset(),
    ensures
        best_confidence(aggregate(s1)) == best_confidence(aggregate(s2)),
{
    broadcast use vstd::seq_lib::group_to_multiset_ensures;

    assert(all_partial(s2)) by {
        assert forall|i: int| 0 <= i < s2.len() implies (#[trigger] s2[i] matches Some(o) ==> 1 <= o.confidence < 100) by {
            assert(s2.contains(s2[i]));
            assert(s1.to_multiset().count(s2[i]) > 0);
            assert(s1.contains(s2[i]));
        }
    }
    law_partial_confidences_take_the_maximum(s1);
    law_partial_confidences_take_the_maximum(s2);
    match (aggregate(s1), aggregate(s2)) {
        (Some(a), Some(b)) => {
            let i = choose|i: int| 0 <= i < s1.len() && #[trigger] s1[i] == Some(a);
            assert(s1.contains(Some(a)));
            assert(s2.to_multiset().count(Some(a)) > 0);
            assert(s2.contains(Some(a)));
            let j = choose|j: int| 0 <= j < s2.len() && #[trigger] s2[j] == Some(b);
            assert(s2.contains(Some(b)));
            assert(s1.to_multiset().count(Some(b)) > 0);
            assert(s1.contains(Some(b)));
        },
        (Some(a), None) => {
            let i = choose|i: int| 0 <= i < s1.len() && #[trigger] s1[i] == Some(a);
            assert(s1.contains(Some(a)));
            assert(s2.to_multiset().count(Some(a)) > 0);
            assert(s2.contains(Some(a)));
        },
        (None, Some(b)) => {
            let j = choose|j: int| 0 <= j < s2.len() && #[trigger] s2[j] == Some(b);
            assert(s2.contains(Some(b)));
            assert(s1.to_multiset().count(Some(b)) > 0);
            assert(s1.contains(Some(b)));
        },
        (None, None) => {},
    }
}

/// A technology whose only rules are header rules gives no outcome on a page
/// that exposes only its text.
pub proof fn law_categories_are_independent(tech: WappTech, page: WappPage)
    requires
        tech.url@.len() == 0,
        tech.cookies@.len() == 0,
        tech.dom@.len() == 0,
        tech.html@.len() == 0,
        tech.text@.len() == 0,
        tech.script_src@.len() == 0,
        tech.scripts@.len() == 0,
        tech.meta@.len() == 0,
        page.url is None,
        page.headers is None,
        page.cookies is None,
        page.dom is None,
        page.html is None,
        page.script_src is None,
        page.scripts is None,
        page.meta is None,
    ensures
        tech_outcome(tech, page) is None,
{
    let all = crate::tech::category_outcomes(tech, page);
    if let Some(t) = page.text {
        assert(crate::check::rules_outcomes(tech.text@, t@).len() == 0);
    }
    assert forall|i: int| 0 <= i < all.len() implies #[trigger] all[i] is None by {}
    assert(all_partial(all));
    law_partial_confidences_take_the_maximum(all);
}

pub open spec fn delim_at(s: Seq<char>, j: int) -> bool {
    0 <= j && j + 1 < s.len() && s[j] == '\\' && s[j + 1] == ';'
}

proof fn lemma_no_delim_after(s: Seq<char>, from: int)
    requires
        0 <= from,
        find_delim(s, from) == s.len(),
    ensures
        forall|j: int| from <= j ==> !delim_at(s, j),
    decreases s.len() - from,
{
    if from + 1 < s.len() {
        lemma_no_delim_after(s, from + 1);
    }
}

proof fn lemma_delim_skips(s: Seq<char>, from: int, to: int)
    requires
        0 <= from <= to <= s.len(),
        forall|j: int| from <= j < to ==> !delim_at(s, j),
    ensures
        find_delim(s, from) == find_delim(s, to),
    decreases to - from,
{
    if from < to {
        assert(!delim_at(s, from));
        if from + 1 < s.len() {
            assert(!(s[from] == '\\' && s[from + 1] == ';'));
        }
        assert(find_delim(s, from) == find_delim(s, from + 1));
        lemma_delim_skips(s, from + 1, to);
    }
}

/// A directive whose key is neither `confidence` nor `version` makes the whole
/// string fail, with an error that names the key, whatever follows it.
pub proof fn law_unknown_directive_is_rejected(content: Seq<char>, key: Seq<char>, rest: Seq<char>)
    requires
        find_delim(content, 0) == content.len(),
        forall|i: int| 0 <= i < key.len() ==> #[trigger] key[i] != ':' && key[i] != '\\',
        key != confidence_key(),
        key != version_key(),
    ensures
        tags_spec(content + seq!['\\', ';'] + key + seq![':'] + rest) == Err::<
            (Seq<char>, i32, Option<VersionModel>),
            ParseErrorModel,
        >(ParseErrorModel::UnknownDirective(key)),
{
    let s = content + seq!['\\', ';'] + key + seq![':'] + rest;
    let c = content.len() as int;
    let k = key.len() as int;
    assert(s[c] == '\\' && s[c + 1] == ';');
    assert forall|j: int| 0 <= j < c implies #[trigger] s[j] == content[j] by {}
    lemma_no_delim_after(content, 0);
    assert forall|j: int| 0 <= j < c implies !delim_at(s, j) by {
        if j + 1 < c {
            assert(!delim_at(content, j));
        }
    }
    lemma_delim_skips(s, 0, c);
    assert(find_delim(s, c) == c);
    assert(find_delim(s, 0) == c);
    assert forall|j: int| 0 <= j < k implies #[trigger] s[c + 2 + j] == key[j] by {}
    assert(s[c + 2 + k] == ':');
    assert forall|j: int| c + 2 <= j < c + 3 + k implies !delim_at(s, j) by {
        if j < c + 2 + k {
            assert(s[j] == key[j - c - 2]);
        }
    }
    lemma_delim_skips(s, c + 2, c + 3 + k);
    crate::tagged::lemma_find_delim(s, c + 3 + k);
    let end = find_delim(s, c + 2);
    assert(c + 3 + k <= end);
    let seg = s.subrange(c + 2, end);
    assert(seg[k] == ':');
    assert forall|j: int| 0 <= j < k implies #[trigger] seg[j] == key[j] by {}
    lemma_find_from(seg, ':', 0);
    let f = find_from(seg, ':', 0);
    if f < k {
        assert(seg[f] == key[f]);
    }
    assert(f == k);
    assert(seg.subrange(0, k) =~= key);
    assert(directive_spec(seg, 100, None) == Err::<(i32, Option<VersionModel>), ParseErrorModel>(
        ParseErrorModel::UnknownDirective(key),
    ));
    assert(directives_spec(s, c + 2, 100, None) == Err::<(i32, Option<VersionModel>), ParseErrorModel>(
        ParseErrorModel::UnknownDirective(key),
    ));
}

} // verus!
