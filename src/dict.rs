//! Label dictionaries: the wordlist and the depth dictionary.

use vstd::prelude::*;

use crate::query::{domain_name_ok, gen_subdomain};
use crate::text::{
    contains_string, dedup_sorted, lemma_push_to_set, lemma_same_multiset_same_set,
    lemma_strictly_sorted_unique, lower_of, lowercase, sort_strings, strictly_sorted, trim, trim_of,
    views,
};

verus! {

/// The label that a line of a dictionary file stands for.
pub open spec fn label_of(line: Seq<char>) -> Seq<char> {
    lower_of(trim_of(line))
}

/// The suffix that a label is checked against.
pub open spec fn canary_suffix() -> Seq<char> {
    seq!['.', '1', '.', 'c', 'o', 'm']
}

/// A label is kept when, followed by the canary suffix, it is a domain name.
pub open spec fn label_ok(label: Seq<char>) -> bool {
    domain_name_ok(label + trim_of(canary_suffix()))
}

/// The labels of a dictionary read from `lines`.
pub open spec fn dict_labels(lines: Seq<Seq<char>>) -> Set<Seq<char>> {
    Set::new(
        |x: Seq<char>|
            exists|i: int| 0 <= i < lines.len() && x == label_of(#[trigger] lines[i]) && label_ok(x),
    )
}

/// A sorted set of labels.
#[derive(Clone, Debug, PartialEq, Eq)]
pub struct Dict {
    dicts: Vec<String>,
}

impl View for Dict {
    type V = Seq<Seq<char>>;

    closed spec fn view(&self) -> Seq<Seq<char>> {
        views(self.dicts@)
    }
}

impl Dict {
    pub open spec fn wf(&self) -> bool {
        strictly_sorted(self@)
    }

    /// The dictionary of the lines of a dictionary file: each line trimmed and
    /// lowercased, kept if it makes a domain name, sorted, each label once.
    pub fn new(lines: Vec<String>) -> (r: Dict)
        ensures
            r.wf(),
            r@.to_set() == dict_labels(views(lines@)),
    {
        let ghost lv = views(lines@);
        let suffix = ".1.com";
        proof {
            reveal_strlit(".1.com");
            assert(suffix@ =~= canary_suffix());
        }
        let mut kept: Vec<String> = Vec::new();
        let mut i: usize = 0;
        while i < lines.len()
            invariant
                i <= lines.len(),
                lv == views(lines@),
                suffix@ == canary_suffix(),
                views(kept@).to_set() == dict_labels(lv.subrange(0, i as int)),
            decreases lines.len() - i,
        {
            let ghost before = views(kept@);
            let t = trim(lines[i].as_str());
            let line = lowercase(t.as_str());
            assert(line@ == label_of(lv[i as int]));
            let ghost pre = lv.subrange(0, i as int);
            let ghost post = lv.subrange(0, i + 1);
            assert(post =~= pre.push(lv[i as int]));
            if gen_subdomain(line.as_str(), suffix).is_some() {
                kept.push(line);
                proof {
                    assert(views(kept@) =~= before.push(label_of(lv[i as int])));
                    lemma_push_to_set(before, label_of(lv[i as int]));
                    assert forall|x: Seq<char>| #[trigger]
                        dict_labels(post).contains(x) <==> dict_labels(pre).insert(
                            label_of(lv[i as int]),
                        ).contains(x) by {
                        if dict_labels(pre).contains(x) {
                            let k = choose|k: int|
                                0 <= k < pre.len() && x == label_of(#[trigger] pre[k])
                                    && label_ok(x);
                            assert(post[k] == pre[k]);
                        }
                        if x == label_of(lv[i as int]) {
                            assert(post[i as int] == lv[i as int]);
                        }
                    }
                    assert(dict_labels(post) =~= dict_labels(pre).insert(label_of(lv[i as int])));
                }
            } else {
                proof {
                    assert forall|x: Seq<char>| #[trigger]
                        dict_labels(post).contains(x) <==> dict_labels(pre).contains(x) by {
                        if dict_labels(post).contains(x) {
                            let k = choose|k: int|
                                0 <= k < post.len() && x == label_of(#[trigger] post[k])
                                    && label_ok(x);
                            if k < i {
                                assert(pre[k] == post[k]);
                            }
                        }
                        if dict_labels(pre).contains(x) {
                            let k = choose|k: int|
                                0 <= k < pre.len() && x == label_of(#[trigger] pre[k])
                                    && label_ok(x);
                            assert(post[k] == pre[k]);
                        }
                    }
                    assert(dict_labels(post) =~= dict_labels(pre));
                }
            }
            i = i + 1;
        }
        assert(lv.subrange(0, lines@.len() as int) =~= lv);
        let ghost unsorted = views(kept@);
        sort_strings(&mut kept);
        proof {
            lemma_same_multiset_same_set(views(kept@), unsorted);
        }
        let dicts = dedup_sorted(&kept);
        Dict { dicts }
    }

    /// Whether `item` is one of the labels.
    pub fn is_exist(&self, item: &String) -> (r: bool)
        ensures
            r == self@.contains(item@),
    {
        contains_string(&self.dicts, item)
    }

    /// The labels, in order.
    pub fn get_dict(self) -> (r: Vec<String>)
        ensures
            views(r@) == self@,
    {
        self.dicts
    }

    /// The number of labels.
    pub fn len(&self) -> (r: usize)
        ensures
            r == self@.len(),
    {
        self.dicts.len()
    }
}

/// Reading the same lines twice gives the same dictionary, label for label
/// and in the same order.
pub proof fn lemma_dict_load_idempotent(lines: Seq<Seq<char>>, a: Dict, b: Dict)
    requires
        a.wf(),
        b.wf(),
        a@.to_set() == dict_labels(lines),
        b@.to_set() == dict_labels(lines),
    ensures
        a@ == b@,
{
    lemma_strictly_sorted_unique(a@, b@);
}

} // verus!
