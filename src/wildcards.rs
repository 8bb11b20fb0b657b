//! The wildcard set: values that names which cannot exist resolved to.

use vstd::prelude::*;

use crate::text::{
    contains_string, copy_strings, dedup_sorted, join, lemma_same_multiset_same_set, sort_strings,
    strictly_sorted, trim, trim_of, views,
};

verus! {

/// The label that no real zone holds, used to probe for wildcard answers.
pub const CANARY_LABEL: &'static str = "d6p4lfaojz";

/// The values observed for names that should not exist.
#[derive(Clone, Debug, PartialEq, Eq)]
pub struct Wildcards {
    pub lists: Vec<String>,
}

impl View for Wildcards {
    type V = Seq<Seq<char>>;

    open spec fn view(&self) -> Seq<Seq<char>> {
        views(self.lists@)
    }
}

impl Wildcards {
    /// An empty set, which rejects nothing.
    pub fn new() -> (r: Wildcards)
        ensures
            r@ == Seq::<Seq<char>>::empty(),
    {
        Wildcards { lists: Vec::new() }
    }

    /// Records one observed value.
    pub fn set_item(&mut self, item: String)
        ensures
            final(self)@ == old(self)@.push(item@),
    {
        self.lists.push(item);
        assert(final(self)@ =~= old(self)@.push(item@));
    }

    /// Whether `item` was observed.
    pub fn is_exist(&self, item: &String) -> (r: bool)
        ensures
            r == self@.contains(item@),
    {
        contains_string(&self.lists, item)
    }

    /// Sorts the values, keeps each once, and returns them.
    pub fn get_list(&mut self) -> (r: Vec<String>)
        ensures
            views(r@) == final(self)@,
            strictly_sorted(final(self)@),
            final(self)@.to_set() == old(self)@.to_set(),
    {
        let ghost before = self@;
        sort_strings(&mut self.lists);
        proof {
            lemma_same_multiset_same_set(self@, before);
        }
        self.lists = dedup_sorted(&self.lists);
        copy_strings(&self.lists)
    }

    /// The number of recorded values.
    pub fn len(self) -> (r: usize)
        ensures
            r == self@.len(),
    {
        self.lists.len()
    }
}

/// The probe labels: the bare canary, and the canary in front of each depth
/// label.
pub open spec fn probe_labels(depth: Seq<Seq<char>>) -> Seq<Seq<char>> {
    seq![CANARY_LABEL@ + "."@] + depth.map_values(
        |d: Seq<char>| CANARY_LABEL@ + "."@ + trim_of(d) + "."@,
    )
}

/// Every probe label in front of each domain, domain by domain.
pub open spec fn probe_names_of(domains: Seq<Seq<char>>, depth: Seq<Seq<char>>) -> Seq<Seq<char>>
    decreases domains.len(),
{
    if domains.len() == 0 {
        Seq::empty()
    } else {
        probe_names_of(domains.drop_last(), depth) + probe_labels(depth).map_values(
            |p: Seq<char>| p + trim_of(domains.last()),
        )
    }
}

/// The names probed for wildcard answers.
pub fn probe_names(domains: &Vec<String>, depth: &Vec<String>) -> (r: Vec<String>)
    ensures
        views(r@) == probe_names_of(views(domains@), views(depth@)),
{
    let ghost dv = views(depth@);
    let mut labels: Vec<String> = Vec::new();
    labels.push(join(CANARY_LABEL, "."));
    let mut k: usize = 0;
    while k < depth.len()
        invariant
            k <= depth.len(),
            dv == views(depth@),
            views(labels@) == probe_labels(dv.subrange(0, k as int)),
        decreases depth.len() - k,
    {
        let ghost prev = views(labels@);
        let d = trim(depth[k].as_str());
        let a = join(CANARY_LABEL, ".");
        let b = join(a.as_str(), d.as_str());
        labels.push(join(b.as_str(), "."));
        proof {
            let want = probe_labels(dv.subrange(0, k + 1));
            let have = views(labels@);
            assert(dv.subrange(0, k + 1)[k as int] == dv[k as int]);
            assert(prev.len() == k + 1);
            assert(have.len() == k + 2);
            assert(dv.subrange(0, k + 1).len() == k + 1);
            assert(want.len() == k + 2);
            assert forall|x: int| 0 <= x < have.len() implies have[x] == want[x] by {
                if x < have.len() - 1 {
                    assert(have[x] == prev[x]);
                    if x > 0 {
                        assert(dv.subrange(0, k + 1)[x - 1] == dv.subrange(0, k as int)[x - 1]);
                    }
                }
            }
            assert(have =~= want);
        }
        k = k + 1;
    }
    assert(dv.subrange(0, depth@.len() as int) =~= dv);
    let ghost pl = probe_labels(dv);
    let mut r: Vec<String> = Vec::new();
    let mut i: usize = 0;
    while i < domains.len()
        invariant
            i <= domains.len(),
            views(labels@) == pl,
            pl == probe_labels(dv),
            views(r@) == probe_names_of(views(domains@).subrange(0, i as int), dv),
        decreases domains.len() - i,
    {
        let ghost base = views(r@);
        let ghost upto = views(domains@).subrange(0, i + 1);
        assert(upto.drop_last() =~= views(domains@).subrange(0, i as int));
        let dom = trim(domains[i].as_str());
        let mut j: usize = 0;
        while j < labels.len()
            invariant
                j <= labels.len(),
                views(labels@) == pl,
                dom@ == trim_of(upto.last()),
                views(r@) == base + pl.subrange(0, j as int).map_values(
                    |p: Seq<char>| p + dom@,
                ),
            decreases labels.len() - j,
        {
            let ghost before = views(r@);
            r.push(join(labels[j].as_str(), dom.as_str()));
            proof {
                let want = base + pl.subrange(0, j + 1).map_values(|p: Seq<char>| p + dom@);
                let have = views(r@);
                assert(pl[j as int] == labels@[j as int]@);
                assert(before.len() == base.len() + j);
                assert(have.len() == base.len() + j + 1);
                assert(want.len() == base.len() + j + 1);
                assert forall|x: int| 0 <= x < have.len() implies have[x] == want[x] by {
                    if x < have.len() - 1 {
                        assert(have[x] == before[x]);
                    }
                }
                assert(have =~= want);
            }
            j = j + 1;
        }
        assert(pl.subrange(0, pl.len() as int) =~= pl);
        assert(views(r@) =~= probe_names_of(upto, dv));
        i = i + 1;
    }
    assert(views(domains@).subrange(0, domains@.len() as int) =~= views(domains@));
    r
}

} // verus!
