use baddns::check_handler::{classify, GenItem};
use baddns::dict::Dict;
use baddns::gen_handler::{expand, gen_item, gen_step, init_target, joint_subdomain, seed_jobs, Item};
use baddns::handler::resolved_item;
use baddns::mem_util::{Coordinator, Directive, QueueMessage, Statue};
use baddns::wildcards::Wildcards;

fn strings(v: &[&str]) -> Vec<String> {
    v.iter().map(|s| s.to_string()).collect()
}

fn job(sub: &str, name: &str, depth: usize, records: Option<&[&str]>) -> Item {
    Item {
        sub: sub.to_string(),
        subdomain: name.to_string(),
        depth,
        collect: records.map(strings),
    }
}

fn wild(v: &[&str]) -> Wildcards {
    let mut w = Wildcards::new();
    for s in v {
        w.set_item(s.to_string());
    }
    w
}

#[test]
fn root_job_expands_once_whatever_it_resolved_to() {
    let targets = init_target(&strings(&["Example.com "]));
    assert_eq!(targets, strings(&["example.com."]));
    let words = Dict::new(strings(&["www", "api"])).get_dict();
    let seeds = seed_jobs(&targets);
    assert_eq!(seeds.len(), 1);
    assert_eq!(seeds[0].subdomain, "example.com.");
    assert_eq!(seeds[0].sub, "");
    assert_eq!(seeds[0].depth, 0);
    for records in [None, Some(&[][..]), Some(&["1.2.3.4"][..])] {
        let item = Item { collect: records.map(strings), ..seeds[0].clone() };
        let v = classify(&item, 1, &Dict::new(Vec::new()), &Wildcards::new());
        let e = v.expansion.expect("a root job always expands");
        assert_eq!(e.domain, "example.com.");
        assert_eq!(e.depth, 1);
        let jobs = expand(&e, &words);
        let names: Vec<String> = jobs.iter().map(|j| j.subdomain.clone()).collect();
        assert_eq!(names, strings(&["api.example.com.", "www.example.com."]));
        assert!(jobs.iter().all(|j| j.depth == 1 && j.collect.is_none()));
    }
}

#[test]
fn wildcard_value_rejects_above_depth_zero_only() {
    let w = wild(&["1.2.3.4"]);
    let dd = Dict::new(Vec::new());
    let v = classify(&job("www", "www.example.com.", 1, Some(&["1.2.3.4"])), 1, &dd, &w);
    assert!(v.result.is_none());
    let v = classify(&job("www", "www.example.com.", 1, Some(&["5.6.7.8"])), 1, &dd, &w);
    let r = v.result.expect("accepted");
    assert_eq!(r.subdomain, "www.example.com");
    assert_eq!(r.collect, strings(&["5.6.7.8"]));
    let v = classify(&job("", "example.com.", 0, Some(&["1.2.3.4"])), 1, &dd, &w);
    assert_eq!(v.result.expect("accepted at depth 0").subdomain, "example.com");
}

#[test]
fn empty_wildcard_set_rejects_nothing_and_no_records_is_rejected() {
    let dd = Dict::new(Vec::new());
    let w = Wildcards::new();
    let v = classify(&job("a", "a.example.com.", 2, Some(&["9.9.9.9"])), 1, &dd, &w);
    assert!(v.result.is_some());
    let v = classify(&job("a", "a.example.com.", 1, Some(&[])), 1, &dd, &w);
    assert!(v.result.is_none());
    let v = classify(&job("a", "a.example.com.", 1, None), 1, &dd, &w);
    assert!(v.result.is_none());
    assert_eq!(v.events(1), vec![Statue::Check, Statue::Unwrite]);
}

#[test]
fn label_outside_depth_dict_is_not_expanded() {
    let dd = Dict::new(strings(&["api"]));
    let w = Wildcards::new();
    let v = classify(&job("www", "www.example.com.", 1, Some(&["5.6.7.8"])), 3, &dd, &w);
    assert!(v.result.is_some());
    assert!(v.expansion.is_none());
    let v = classify(&job("api", "api.example.com.", 1, Some(&["5.6.7.8"])), 3, &dd, &w);
    let e = v.expansion.clone().expect("expanded");
    assert_eq!(e.domain, "api.example.com.");
    assert_eq!(e.depth, 2);
    assert_eq!(v.events(1), vec![Statue::Check, Statue::Writes, Statue::TargetCount]);
}

#[test]
fn max_depth_one_stops_expansion_at_depth_one() {
    let dd = Dict::new(strings(&["api"]));
    let w = Wildcards::new();
    let v = classify(&job("api", "api.example.com.", 1, Some(&["5.6.7.8"])), 1, &dd, &w);
    assert!(v.result.is_some());
    assert!(v.expansion.is_none());
}

#[test]
fn joint_subdomain_and_gen_item() {
    assert_eq!(joint_subdomain("example.com.", ""), "example.com.");
    assert_eq!(joint_subdomain("example.com.", "www"), "www.example.com.");
    let it = gen_item("example.com.", "mail", 3);
    assert_eq!(it.sub, "mail");
    assert_eq!(it.subdomain, "mail.example.com.");
    assert_eq!(it.depth, 3);
    assert!(it.collect.is_none());
}

#[test]
fn generator_steps() {
    let words = strings(&["a", "b"]);
    let g = GenItem { domain: "x.org.".to_string(), depth: 2 };
    let s = gen_step(&QueueMessage::Gen(g), &words);
    assert!(!s.forward_terminate);
    assert_eq!(s.jobs.len(), 2);
    assert_eq!(s.jobs[1].subdomain, "b.x.org.");
    assert_eq!(s.jobs[1].depth, 2);
    let s = gen_step(&QueueMessage::Terminate, &words);
    assert!(s.forward_terminate);
    assert!(s.jobs.is_empty());
    let s = gen_step(&QueueMessage::Clear, &words);
    assert!(!s.forward_terminate);
    assert!(s.jobs.is_empty());
}

fn run(c: &mut Coordinator, evs: &[Statue]) -> Vec<Directive> {
    evs.iter()
        .map(|e| {
            assert!(c.has_room());
            c.step(*e)
        })
        .collect()
}

#[test]
fn single_target_empty_wordlist_terminates() {
    for accepted in [true, false] {
        let mut c = Coordinator::new(0, 1);
        assert_eq!(c.expected(), 1);
        let mut evs = vec![Statue::Querys, Statue::Query, Statue::Checks, Statue::Check];
        if accepted {
            evs.push(Statue::Writes);
            evs.push(Statue::Write);
        } else {
            evs.push(Statue::Unwrite);
        }
        let ds = run(&mut c, &evs);
        assert_eq!(*ds.last().unwrap(), Directive::SendTerminate);
        assert!(ds[..ds.len() - 1].iter().all(|d| *d == Directive::Continue));
        assert_eq!(run(&mut c, &[Statue::Terminate]), vec![Directive::Stop]);
        assert_eq!(c.check, 1);
        assert!(c.write <= 1);
    }
}

#[test]
fn coordinator_expected_total_grows_with_expansions() {
    let mut c = Coordinator::new(3, 2);
    assert_eq!(c.expected(), 8);
    run(&mut c, &[Statue::TargetCount]);
    assert_eq!(c.expected(), 11);
    run(&mut c, &[Statue::TargetCount]);
    assert_eq!(c.expected(), 14);
}

#[test]
fn coordinator_sends_terminate_once() {
    let mut c = Coordinator::new(0, 1);
    let ds = run(&mut c, &[Statue::Querys, Statue::Query, Statue::Checks, Statue::Check, Statue::Unwrite]);
    assert_eq!(ds[4], Directive::SendTerminate);
    assert!(c.terminate_sent);
    let ds = run(&mut c, &[Statue::Writes]);
    assert_eq!(ds, vec![Directive::Continue]);
}

#[test]
fn resolved_item_keeps_the_job() {
    let it = gen_item("example.com.", "www", 1);
    let r = resolved_item(&it, strings(&["1.2.3.4"]));
    assert_eq!(r.sub, "www");
    assert_eq!(r.subdomain, "www.example.com.");
    assert_eq!(r.depth, 1);
    assert_eq!(r.collect, Some(strings(&["1.2.3.4"])));
}
