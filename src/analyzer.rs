use vstd::prelude::*;

use std::collections::HashMap;

use crate::check::{outcome_view, OutcomeModel};
use crate::tech::{tech_outcome, WappPage, WappTech};

verus! {

/// A group of technology categories.
#[derive(Debug)]
pub struct WappTechGroup {
    pub id: i32,
    pub name: String,
}

/// A technology category.
#[derive(Debug)]
pub struct WappTechCategory {
    pub id: i32,
    pub groups: Vec<i32>,
    pub name: String,
    pub priority: i32,
}

/// One technology found on a page.
#[derive(Debug, PartialEq, Eq)]
pub struct WappCheckResult {
    pub tech_name: String,
    pub confidence: i32,
    pub version: Option<String>,
}

/// A technology name with the outcome it had on a page.
pub type FoundModel = (Seq<char>, OutcomeModel);

pub open spec fn found_view(r: WappCheckResult) -> FoundModel {
    (
        r.tech_name@,
        OutcomeModel {
            confidence: r.confidence,
            version: crate::pattern::opt_string_view(r.version),
        },
    )
}

/// The technologies of `techs` that have an outcome on `page`, in order, each
/// with that outcome.
pub open spec fn found_on(techs: Seq<WappTech>, page: WappPage) -> Seq<FoundModel>
    decreases techs.len(),
{
    if techs.len() == 0 {
        Seq::empty()
    } else {
        found_on(techs.drop_last(), page) + match tech_outcome(techs.last(), page) {
            Some(o) => seq![(techs.last().name@, o)],
            None => Seq::empty(),
        }
    }
}

/// The rule database: technology groups and categories by id, and technologies.
#[derive(Debug)]
pub struct WappAnalyzer {
    pub groups: HashMap<i32, WappTechGroup>,
    pub cats: HashMap<i32, WappTechCategory>,
    pub techs: Vec<WappTech>,
}

impl WappAnalyzer {
    /// No two technologies share a name.
    pub open spec fn wf(&self) -> bool {
        forall|i: int, j: int|
            0 <= i < j < self.techs@.len() ==> (#[trigger] self.techs@[i]).name@
                != (#[trigger] self.techs@[j]).name@
    }

    /// An analyzer with no groups, categories or technologies.
    pub fn new_empty() -> (r: Self)
        ensures
            r.wf(),
            r.groups@.len() == 0,
            r.cats@.len() == 0,
            r.techs@.len() == 0,
    {
        WappAnalyzer { groups: HashMap::new(), cats: HashMap::new(), techs: Vec::new() }
    }

    /// Adds a technology; one of the same name that was there before is replaced.
    pub fn add_tech(&mut self, tech: WappTech)
        requires
            old(self).wf(),
        ensures
            final(self).wf(),
            final(self).groups == old(self).groups,
            final(self).cats == old(self).cats,
            exists|k: int|
                0 <= k < final(self).techs@.len() && #[trigger] final(self).techs@[k] == tech,
            forall|k: int|
                0 <= k < final(self).techs@.len() && final(self).techs@[k].name@ != tech.name@
                    ==> old(self).techs@.contains(#[trigger] final(self).techs@[k]),
            forall|k: int|
                0 <= k < old(self).techs@.len() && old(self).techs@[k].name@ != tech.name@
                    ==> final(self).techs@.contains(#[trigger] old(self).techs@[k]),
    {
        let n = self.techs.len();
        let mut i: usize = 0;
        while i < n
            invariant
                n == self.techs@.len(),
                *self == *old(self),
                old(self).wf(),
                i <= n,
                forall|j: int| 0 <= j < i ==> (#[trigger] self.techs@[j]).name@ != tech.name@,
            decreases n - i,
        {
            if self.techs[i].name.eq(&tech.name) {
                let ghost before = self.techs@;
                self.techs.set(i, tech);
                proof {
                    assert forall|k: int|
                        0 <= k < self.techs@.len() && self.techs@[k].name@ != tech.name@ implies old(
                        self,
                    ).techs@.contains(#[trigger] self.techs@[k]) by {
                        assert(before[k] == self.techs@[k]);
                    }
                    assert forall|k: int|
                        0 <= k < before.len() && before[k].name@ != tech.name@ implies self.techs@.contains(
                        #[trigger] before[k],
                    ) by {
                        assert(self.techs@[k] == before[k]);
                    }
                    assert(self.techs@[i as int] == tech);
                    assert forall|a: int| 0 <= a < self.techs@.len() implies (
                    #[trigger] self.techs@[a]).name@ == before[a].name@ by {
                        if a != i {
                            assert(self.techs@[a] == before[a]);
                        }
                    }
                    assert(self.wf()) by {
                        assert forall|a: int, b: int|
                            0 <= a < b < self.techs@.len() implies (#[trigger] self.techs@[a]).name@
                            != (#[trigger] self.techs@[b]).name@ by {
                            assert(self.techs@[a].name@ == before[a].name@);
                            assert(self.techs@[b].name@ == before[b].name@);
                            assert(old(self).techs@[a].name@ != old(self).techs@[b].name@);
                        }
                    }
                }
                return;
            }
            i = i + 1;
        }
        let ghost before = self.techs@;
        self.techs.push(tech);
        proof {
            assert forall|k: int|
                0 <= k < self.techs@.len() && self.techs@[k].name@ != tech.name@ implies old(
                self,
            ).techs@.contains(#[trigger] self.techs@[k]) by {
                assert(before[k] == self.techs@[k]);
            }
            assert forall|k: int|
                0 <= k < before.len() && before[k].name@ != tech.name@ implies self.techs@.contains(
                #[trigger] before[k],
            ) by {
                assert(self.techs@[k] == before[k]);
            }
            assert(self.techs@[n as int] == tech);
        }
    }

    /// Checks every technology against `page`; one result for each technology
    /// that any category gave an outcome, in the order of `techs`.
    pub fn check(&self, page: &WappPage) -> (r: Vec<WappCheckResult>)
        ensures
            r@.map_values(|x: WappCheckResult| found_view(x)) == found_on(self.techs@, *page),
    {
        let mut out: Vec<WappCheckResult> = Vec::new();
        let mut i: usize = 0;
        while i < self.techs.len()
            invariant
                i <= self.techs@.len(),
                out@.map_values(|x: WappCheckResult| found_view(x)) == found_on(
                    self.techs@.subrange(0, i as int),
                    *page,
                ),
            decreases self.techs@.len() - i,
        {
            let tech = &self.techs[i];
            let ghost before = out@;
            assert(self.techs@.subrange(0, i + 1).drop_last() =~= self.techs@.subrange(0, i as int));
            match tech.check(page) {
                Some(res) => {
                    let found = WappCheckResult {
                        tech_name: tech.name.clone(),
                        confidence: res.confidence,
                        version: res.version,
                    };
                    out.push(found);
                    assert(out@.map_values(|x: WappCheckResult| found_view(x)) =~= before.map_values(
                        |x: WappCheckResult| found_view(x),
                    ) + seq![found_view(found)]);
                },
                None => {},
            }
            i = i + 1;
        }
        assert(self.techs@.subrange(0, self.techs@.len() as int) =~= self.techs@);
        out
    }
}

} // verus!
