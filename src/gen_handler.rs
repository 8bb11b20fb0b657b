//! The generator: root jobs for the targets, and one candidate job per
//! wordlist label for each expansion request.

use vstd::prelude::*;

use crate::check_handler::GenItem;
use crate::mem_util::QueueMessage;
use crate::text::{join, lower_of, lowercase, trim, trim_of, views};

verus! {

/// A candidate job: the label that was put in front of the parent domain, the
/// full name, its depth, and the values it resolved to once resolved.
#[derive(Clone, Debug, PartialEq, Eq)]
pub struct Item {
    pub sub: String,
    pub subdomain: String,
    pub depth: usize,
    pub collect: Option<Vec<String>>,
}

/// The name made of `sub` in front of `domain`; the domain itself for an
/// empty label.
pub open spec fn joined_name(domain: Seq<char>, sub: Seq<char>) -> Seq<char> {
    if sub.len() == 0 {
        domain
    } else {
        sub + "."@ + domain
    }
}

/// `it` is the unresolved job for `sub` under `domain` at `depth`.
pub open spec fn is_job(it: Item, domain: Seq<char>, sub: Seq<char>, depth: nat) -> bool {
    &&& it.sub@ == sub
    &&& it.subdomain@ == joined_name(domain, sub)
    &&& it.depth == depth
    &&& it.collect.is_none()
}

/// `jobs` holds, in order, one unresolved job per label of `words` under
/// `domain` at `depth`.
pub open spec fn fans_out(jobs: Seq<Item>, domain: Seq<char>, words: Seq<Seq<char>>, depth: nat) -> bool {
    &&& jobs.len() == words.len()
    &&& forall|i: int| 0 <= i < jobs.len() ==> is_job(#[trigger] jobs[i], domain, words[i], depth)
}

/// A normalized target: the trimmed, lowercased line with a final dot.
pub open spec fn target_of(line: Seq<char>) -> Seq<char> {
    lower_of(trim_of(line)) + "."@
}

/// `sub` in front of `domain`, or `domain` alone for an empty `sub`.
pub fn joint_subdomain(domain: &str, sub: &str) -> (r: String)
    ensures
        r@ == joined_name(domain@, sub@),
{
    if sub.unicode_len() == 0 {
        return domain.to_owned();
    }
    let a = join(sub, ".");
    join(a.as_str(), domain)
}

/// The unresolved job for `sub` under `domain` at `depth`.
pub fn gen_item(domain: &str, sub: &str, depth: usize) -> (r: Item)
    ensures
        is_job(r, domain@, sub@, depth as nat),
{
    let subdomain = joint_subdomain(domain, sub);
    Item { sub: sub.to_owned(), subdomain, depth, collect: None }
}

/// The targets of the lines of a target file: each trimmed, lowercased, with
/// a final dot.
pub fn init_target(lines: &Vec<String>) -> (r: Vec<String>)
    ensures
        views(r@) == views(lines@).map_values(|l: Seq<char>| target_of(l)),
{
    let mut r: Vec<String> = Vec::new();
    let mut i: usize = 0;
    while i < lines.len()
        invariant
            i <= lines.len(),
            views(r@) == views(lines@).subrange(0, i as int).map_values(
                |l: Seq<char>| target_of(l),
            ),
        decreases lines.len() - i,
    {
        let ghost before = views(r@);
        let t = trim(lines[i].as_str());
        let l = lowercase(t.as_str());
        r.push(join(l.as_str(), "."));
        proof {
            let want = views(lines@).subrange(0, i + 1).map_values(|l: Seq<char>| target_of(l));
            let have = views(r@);
            assert(before.len() == i);
            assert(have.len() == want.len());
            assert forall|x: int| 0 <= x < have.len() implies have[x] == want[x] by {
                if x < i {
                    assert(have[x] == before[x]);
                }
            }
            assert(have =~= want);
        }
        i = i + 1;
    }
    assert(views(lines@).subrange(0, lines@.len() as int) =~= views(lines@));
    r
}

/// One depth-0 job with an empty label per target: the root names
/// themselves.
pub fn seed_jobs(target: &Vec<String>) -> (r: Vec<Item>)
    ensures
        r@.len() == target@.len(),
        forall|i: int| 0 <= i < r@.len() ==> is_job(#[trigger] r@[i], target@[i]@, Seq::empty(), 0),
{
    let mut r: Vec<Item> = Vec::new();
    let mut i: usize = 0;
    while i < target.len()
        invariant
            i <= target.len(),
            r@.len() == i,
            forall|k: int| 0 <= k < i ==> is_job(#[trigger] r@[k], target@[k]@, Seq::empty(), 0),
        decreases target.len() - i,
    {
        let e = "";
        proof {
            reveal_strlit("");
            assert(e@ =~= Seq::<char>::empty());
        }
        r.push(gen_item(target[i].as_str(), e, 0));
        i = i + 1;
    }
    r
}

/// The jobs of one expansion request: one per wordlist label, at the
/// request's depth, in wordlist order.
pub fn expand(request: &GenItem, sub_list: &Vec<String>) -> (r: Vec<Item>)
    ensures
        fans_out(r@, request.domain@, views(sub_list@), request.depth as nat),
{
    let mut r: Vec<Item> = Vec::new();
    let mut i: usize = 0;
    while i < sub_list.len()
        invariant
            i <= sub_list.len(),
            fans_out(r@, request.domain@, views(sub_list@).subrange(0, i as int), request.depth as nat),
        decreases sub_list.len() - i,
    {
        r.push(gen_item(request.domain.as_str(), sub_list[i].as_str(), request.depth));
        i = i + 1;
    }
    assert(views(sub_list@).subrange(0, sub_list@.len() as int) =~= views(sub_list@));
    r
}

/// What the generator does with one message: the jobs to send on, and
/// whether to pass the terminate signal on and stop.
pub struct GenStep {
    pub jobs: Vec<Item>,
    pub forward_terminate: bool,
}

/// The generator's answer to one message of its input.
pub fn gen_step(msg: &QueueMessage, sub_list: &Vec<String>) -> (r: GenStep)
    ensures
        match msg {
            QueueMessage::Gen(g) => fans_out(r.jobs@, g.domain@, views(sub_list@), g.depth as nat)
                && !r.forward_terminate,
            QueueMessage::Terminate => r.jobs@.len() == 0 && r.forward_terminate,
            _ => r.jobs@.len() == 0 && !r.forward_terminate,
        },
{
    match msg {
        QueueMessage::Gen(g) => GenStep { jobs: expand(g, sub_list), forward_terminate: false },
        QueueMessage::Terminate => GenStep { jobs: Vec::new(), forward_terminate: true },
        _ => GenStep { jobs: Vec::new(), forward_terminate: false },
    }
}

} // verus!
