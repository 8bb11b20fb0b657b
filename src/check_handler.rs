//! The classifier: acceptance of resolved jobs against the wildcard set, and
//! the rules that decide when a name is expanded one level deeper.

use vstd::prelude::*;

use crate::dict::Dict;
use crate::gen_handler::{fans_out, joined_name, Item};
use crate::mem_util::Statue;
use crate::text::{copy_strings, strip_dots, trim_trailing_dots, views};
use crate::wildcards::Wildcards;
use crate::write_handler::ResultsSubDomain;

verus! {

/// An expansion request: expand `domain` into jobs at `depth`.
#[derive(Clone, Debug, PartialEq, Eq)]
pub struct GenItem {
    pub domain: String,
    pub depth: usize,
}

/// The resolved values of a job, as text.
pub open spec fn records_of(item: Item) -> Option<Seq<Seq<char>>> {
    match item.collect {
        Some(v) => Some(views(v@)),
        None => None,
    }
}

/// No record is a wildcard value; an empty wildcard set passes everything.
pub open spec fn passes_wildcards(wild: Seq<Seq<char>>, records: Seq<Seq<char>>) -> bool {
    wild.len() == 0 || forall|k: int| 0 <= k < records.len() ==> !wild.contains(#[trigger] records[k])
}

/// A job becomes a result when it resolved to something, and at depth above
/// 0 none of it is a wildcard value.
pub open spec fn accepts(depth: nat, records: Option<Seq<Seq<char>>>, wild: Seq<Seq<char>>) -> bool {
    match records {
        Some(r) => r.len() > 0 && (depth == 0 || passes_wildcards(wild, r)),
        None => false,
    }
}

/// The depth of the expansion that a job asks for, if any: always 1 for a
/// root job; otherwise one deeper, for an accepted job within the depth limit
/// whose label is in the depth dictionary.
pub open spec fn expansion_depth(
    depth: nat,
    label: Seq<char>,
    accepted: bool,
    max_depth: nat,
    depth_dict: Seq<Seq<char>>,
) -> Option<nat> {
    if depth == 0 {
        Some(1)
    } else if accepted && depth + 1 <= max_depth && depth_dict.contains(label) {
        Some(depth + 1)
    } else {
        None
    }
}

/// What the classifier decides for one job.
#[derive(Clone, Debug)]
pub struct Decision {
    pub expansion: Option<GenItem>,
    pub result: Option<ResultsSubDomain>,
}

/// `v` is the classifier's decision on `item`.
pub open spec fn is_decision(
    v: Decision,
    item: Item,
    max_depth: nat,
    depth_dict: Seq<Seq<char>>,
    wild: Seq<Seq<char>>,
) -> bool {
    let accepted = accepts(item.depth as nat, records_of(item), wild);
    &&& match expansion_depth(item.depth as nat, item.sub@, accepted, max_depth, depth_dict) {
        Some(d) => v.expansion.is_some() && v.expansion.unwrap().domain@ == item.subdomain@
            && v.expansion.unwrap().depth == d,
        None => v.expansion.is_none(),
    }
    &&& v.result.is_some() == accepted
    &&& accepted ==> v.result.unwrap().subdomain@ == strip_dots(item.subdomain@)
        && views(v.result.unwrap().collect@) == records_of(item).unwrap()
}

/// The result for `domain`: its name without trailing dots, and its values.
pub fn gen_result(domain: &str, collect: &Vec<String>) -> (r: ResultsSubDomain)
    ensures
        r.subdomain@ == strip_dots(domain@),
        r.collect@ == collect@,
{
    ResultsSubDomain { subdomain: trim_trailing_dots(domain), collect: copy_strings(collect) }
}

/// Whether a job at `item_depth` may be expanded under the limit `depth`.
pub fn check_depth(item_depth: usize, depth: usize) -> (r: bool)
    ensures
        r == (item_depth + 1 <= depth),
{
    item_depth < depth
}

/// Whether the job resolved to at least one value.
pub fn check_collect(collect: &Option<Vec<String>>) -> (r: bool)
    ensures
        r == (collect.is_some() && collect.unwrap()@.len() > 0),
{
    match collect {
        Some(v) => v.len() > 0,
        None => false,
    }
}

/// Whether none of the values is a wildcard value.
pub fn check_wildcards(wildcards: &Wildcards, collect: &Vec<String>) -> (r: bool)
    ensures
        r == passes_wildcards(wildcards@, views(collect@)),
{
    if wildcards.lists.len() == 0 {
        return true;
    }
    let mut i: usize = 0;
    while i < collect.len()
        invariant
            i <= collect.len(),
            forall|k: int| 0 <= k < i ==> !wildcards@.contains(#[trigger] views(collect@)[k]),
        decreases collect.len() - i,
    {
        if wildcards.is_exist(&collect[i]) {
            assert(views(collect@)[i as int] == collect@[i as int]@);
            return false;
        }
        i = i + 1;
    }
    true
}

/// Whether the label is in the depth dictionary.
pub fn check_depth_dict(sub: &str, depth_dict: &Dict) -> (r: bool)
    ensures
        r == depth_dict@.contains(sub@),
{
    if depth_dict.len() == 0 {
        return false;
    }
    depth_dict.is_exist(&sub.to_owned())
}

/// The classifier's decision on one resolved job.
pub fn classify(item: &Item, depth: usize, depth_dict: &Dict, w: &Wildcards) -> (r: Decision)
    ensures
        is_decision(r, *item, depth as nat, depth_dict@, w@),
{
    let mut expansion: Option<GenItem> = None;
    if item.depth == 0 {
        expansion = Some(GenItem { depth: 1, domain: item.subdomain.clone() });
    }
    let mut result: Option<ResultsSubDomain> = None;
    if check_collect(&item.collect) {
        let collect = match &item.collect {
            Some(v) => v,
            None => {
                return Decision { expansion, result };
            },
        };
        if item.depth == 0 {
            result = Some(gen_result(item.subdomain.as_str(), collect));
        } else if check_wildcards(w, collect) {
            result = Some(gen_result(item.subdomain.as_str(), collect));
            if check_depth(item.depth, depth) && check_depth_dict(item.sub.as_str(), depth_dict) {
                expansion = Some(GenItem { domain: item.subdomain.clone(), depth: item.depth + 1 });
            }
        }
    }
    Decision { expansion, result }
}

impl Decision {
    /// The lifecycle events of classifying a job at `depth` with this
    /// decision: the classification itself, its outcome (accepted or rejected),
    /// and, above depth 0, one more for the expansion that it asks for.
    pub fn events(&self, depth: usize) -> (r: Vec<Statue>)
        ensures
            r@.len() >= 2,
            r@[0] == Statue::Check,
            r@[1] == (if self.result.is_some() {
                Statue::Writes
            } else {
                Statue::Unwrite
            }),
            r@.len() == (if depth > 0 && self.expansion.is_some() {
                3int
            } else {
                2int
            }),
            r@.len() == 3 ==> r@[2] == Statue::TargetCount,
    {
        let mut r: Vec<Statue> = Vec::new();
        r.push(Statue::Check);
        if self.result.is_some() {
            r.push(Statue::Writes);
        } else {
            r.push(Statue::Unwrite);
        }
        if depth > 0 && self.expansion.is_some() {
            r.push(Statue::TargetCount);
        }
        r
    }
}

/// A root job asks for exactly one expansion, to depth 1 of its own name,
/// whatever it resolved to; the generator turns that request into one job
/// per wordlist label under the root name.
pub proof fn lemma_root_always_expands(
    v: Decision,
    item: Item,
    max_depth: nat,
    depth_dict: Seq<Seq<char>>,
    wild: Seq<Seq<char>>,
    words: Seq<Seq<char>>,
    jobs: Seq<Item>,
)
    requires
        item.depth == 0,
        is_decision(v, item, max_depth, depth_dict, wild),
        fans_out(jobs, v.expansion.unwrap().domain@, words, v.expansion.unwrap().depth as nat),
    ensures
        v.expansion.is_some(),
        v.expansion.unwrap().domain@ == item.subdomain@,
        v.expansion.unwrap().depth == 1,
        jobs.len() == words.len(),
        forall|i: int|
            0 <= i < jobs.len() ==> (#[trigger] jobs[i]).subdomain@ == joined_name(
                item.subdomain@,
                words[i],
            ) && jobs[i].depth == 1 && jobs[i].sub@ == words[i],
{
    assert forall|i: int| 0 <= i < jobs.len() implies (#[trigger] jobs[i]).subdomain@
        == joined_name(item.subdomain@, words[i]) && jobs[i].depth == 1 && jobs[i].sub@
        == words[i] by {}
}

/// Above depth 0 a job with a wildcard value among its records is rejected,
/// and one with none of them is accepted; at depth 0 any job with records is
/// accepted; an empty wildcard set rejects nothing; a job without records is
/// never accepted.
pub proof fn lemma_wildcard_filter(wild: Seq<Seq<char>>, depth: nat, records: Seq<Seq<char>>)
    ensures
        depth > 0 && (exists|k: int| 0 <= k < records.len() && wild.contains(#[trigger] records[k]))
            ==> !accepts(depth, Some(records), wild),
        records.len() > 0 && (forall|k: int|
            0 <= k < records.len() ==> !wild.contains(#[trigger] records[k])) ==> accepts(
            depth,
            Some(records),
            wild,
        ),
        records.len() > 0 ==> accepts(0, Some(records), wild),
        records.len() > 0 && wild.len() == 0 ==> accepts(depth, Some(records), wild),
        records.len() == 0 ==> !accepts(depth, Some(records), wild),
        !accepts(depth, None, wild),
{
    if depth > 0 && (exists|k: int| 0 <= k < records.len() && wild.contains(#[trigger] records[k])) {
        let k = choose|k: int| 0 <= k < records.len() && wild.contains(#[trigger] records[k]);
        assert(wild.len() > 0);
    }
}

/// An accepted job above depth 0 whose label is not in the depth dictionary
/// asks for no expansion.
pub proof fn lemma_no_expansion_outside_depth_dict(
    v: Decision,
    item: Item,
    max_depth: nat,
    depth_dict: Seq<Seq<char>>,
    wild: Seq<Seq<char>>,
)
    requires
        item.depth > 0,
        !depth_dict.contains(item.sub@),
        is_decision(v, item, max_depth, depth_dict, wild),
    ensures
        v.expansion.is_none(),
{
}

/// A job above depth 0 that is at the depth limit or beyond it asks for no
/// expansion, accepted or not.
pub proof fn lemma_no_expansion_past_max_depth(
    v: Decision,
    item: Item,
    max_depth: nat,
    depth_dict: Seq<Seq<char>>,
    wild: Seq<Seq<char>>,
)
    requires
        item.depth > 0,
        item.depth >= max_depth,
        is_decision(v, item, max_depth, depth_dict, wild),
    ensures
        v.expansion.is_none(),
{
}

} // verus!
