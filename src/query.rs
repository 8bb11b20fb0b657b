//! Domain-name validation, the resolver tables and the per-record-type
//! retry policy of the resolution engine.

use rand::Rng;
use std::str::FromStr;
use trust_dns_client::rr::Name;
use vstd::prelude::*;

use crate::text::{join, strip_dots, trim, trim_of, trim_trailing_dots, views};

verus! {

#[verifier::external_type_specification]
#[verifier::external_body]
pub struct ExName(Name);

/// Whether trust-dns accepts `s` as a domain name.
pub uninterp spec fn domain_name_ok(s: Seq<char>) -> bool;

/// Relies on trust-dns's `Name::from_str`: it parses the text alone, and the
/// outcome depends on the characters alone.
#[verifier::external_body]
fn parse_name(s: &str) -> (r: Option<Name>)
    ensures
        r.is_some() == domain_name_ok(s@),
{
    Name::from_str(s).ok()
}

/// The name made of `sub` followed by the trimmed `domain`, where trust-dns
/// accepts it.
pub fn gen_subdomain(sub: &str, domain: &str) -> (r: Option<Name>)
    ensures
        r.is_some() == domain_name_ok(sub@ + trim_of(domain@)),
{
    let d = trim(domain);
    let name = join(sub, d.as_str());
    parse_name(name.as_str())
}

/// The transport of a query.
#[derive(PartialEq, Eq, Structural, Clone, Copy, Debug)]
pub enum Protocol {
    TCP,
    UDP,
}

/// The record types that are resolved.
#[derive(PartialEq, Eq, Structural, Clone, Copy, Debug)]
pub enum RecordTypes {
    CNAME,
    A,
    AAAA,
}

/// A set of resolver addresses that an attempt picks from.
#[derive(PartialEq, Eq, Structural, Clone, Copy, Debug)]
pub enum Tier {
    /// The low-latency UDP subset, for the first failures.
    Restricted,
    /// Every known resolver.
    Full,
    /// The TCP subset.
    Tcp,
}

/// The addresses of a tier.
pub open spec fn tier_servers(t: Tier) -> Seq<Seq<char>> {
    match t {
        Tier::Restricted => seq![
            "208.67.222.222:53"@,
            "208.67.220.220:53"@,
            "8.26.56.26:53"@,
            "8.20.247.20:53"@,
            "208.244.0.4:53"@,
            "216.146.35.35:53"@,
            "216.146.36.36:53"@,
            "195.46.39.39:53"@,
            "195.46.39.40:53"@,
            "84.200.69.80:53"@,
            "84.200.70.40:53"@,
        ],
        Tier::Full => seq![
            "8.8.8.8:53"@,
            "8.8.4.4:53"@,
            "1.1.1.1:53"@,
            "1.0.0.1:53"@,
            "1.1.1.2:53"@,
            "1.0.0.2:53"@,
            "1.1.1.3:53"@,
            "1.0.0.3:53"@,
            "208.67.222.222:53"@,
            "208.67.220.220:53"@,
            "8.26.56.26:53"@,
            "8.20.247.20:53"@,
            "208.244.0.4:53"@,
            "216.146.35.35:53"@,
            "216.146.36.36:53"@,
            "195.46.39.39:53"@,
            "195.46.39.40:53"@,
            "206.189.193.106:53"@,
            "84.200.69.80:53"@,
            "84.200.70.40:53"@,
            "144.76.103.143:53"@,
        ],
        Tier::Tcp => seq![
            "8.8.8.8:53"@,
            "8.8.4.4:53"@,
            "1.1.1.1:53"@,
            "1.0.0.1:53"@,
            "1.1.1.2:53"@,
            "1.0.0.2:53"@,
            "1.1.1.3:53"@,
            "1.0.0.3:53"@,
        ],
    }
}

/// The views of a sequence of string slices.
pub open spec fn str_views(v: Seq<&str>) -> Seq<Seq<char>> {
    v.map_values(|s: &str| s@)
}

/// The addresses of a tier, in table order.
pub fn server_table(t: Tier) -> (r: Vec<&'static str>)
    ensures
        str_views(r@) == tier_servers(t),
{
    let mut r: Vec<&'static str> = Vec::new();
    match t {
        Tier::Restricted => {
            r.push("208.67.222.222:53");
            r.push("208.67.220.220:53");
            r.push("8.26.56.26:53");
            r.push("8.20.247.20:53");
            r.push("208.244.0.4:53");
            r.push("216.146.35.35:53");
            r.push("216.146.36.36:53");
            r.push("195.46.39.39:53");
            r.push("195.46.39.40:53");
            r.push("84.200.69.80:53");
            r.push("84.200.70.40:53");
        },
        Tier::Full => {
            r.push("8.8.8.8:53");
            r.push("8.8.4.4:53");
            r.push("1.1.1.1:53");
            r.push("1.0.0.1:53");
            r.push("1.1.1.2:53");
            r.push("1.0.0.2:53");
            r.push("1.1.1.3:53");
            r.push("1.0.0.3:53");
            r.push("208.67.222.222:53");
            r.push("208.67.220.220:53");
            r.push("8.26.56.26:53");
            r.push("8.20.247.20:53");
            r.push("208.244.0.4:53");
            r.push("216.146.35.35:53");
            r.push("216.146.36.36:53");
            r.push("195.46.39.39:53");
            r.push("195.46.39.40:53");
            r.push("206.189.193.106:53");
            r.push("84.200.69.80:53");
            r.push("84.200.70.40:53");
            r.push("144.76.103.143:53");
        },
        Tier::Tcp => {
            r.push("8.8.8.8:53");
            r.push("8.8.4.4:53");
            r.push("1.1.1.1:53");
            r.push("1.0.0.1:53");
            r.push("1.1.1.2:53");
            r.push("1.0.0.2:53");
            r.push("1.1.1.3:53");
            r.push("1.0.0.3:53");
        },
    }
    assert(str_views(r@) =~= tier_servers(t));
    r
}

/// Relies on rand's `Rng::gen_range(low, high)` on the thread's generator:
/// a value in `[low, high)`; it panics only where `low >= high`.
#[verifier::external_body]
fn random_below(n: usize) -> (r: usize)
    requires
        n > 0,
    ensures
        r < n,
{
    rand::thread_rng().gen_range(0, n)
}

/// The state of the resolution of one record type: the transport of the next
/// attempt, the failures so far, and whether that attempt is the one TCP
/// attempt made when the UDP failures reach the retry threshold.
#[derive(PartialEq, Eq, Structural, Clone, Copy, Debug)]
pub struct Attempt {
    pub protocol: Protocol,
    pub failures: usize,
    pub fallback: bool,
}

/// The state after a failed attempt.
pub open spec fn next_attempt(a: Attempt, retry: usize) -> Attempt {
    if a.fallback {
        Attempt { protocol: Protocol::UDP, failures: a.failures, fallback: false }
    } else if a.protocol == Protocol::TCP {
        a
    } else {
        let f = if a.failures < usize::MAX {
            (a.failures + 1) as usize
        } else {
            a.failures
        };
        if f == retry {
            Attempt { protocol: Protocol::TCP, failures: f, fallback: true }
        } else {
            Attempt { protocol: Protocol::UDP, failures: f, fallback: false }
        }
    }
}

/// The tier that an attempt picks its resolver from: the TCP subset over
/// TCP; over UDP the restricted subset below two failures, all of them from
/// then on.
pub open spec fn tier_for(a: Attempt) -> Tier {
    if a.protocol == Protocol::TCP {
        Tier::Tcp
    } else if a.failures < 2 {
        Tier::Restricted
    } else {
        Tier::Full
    }
}

/// The first attempt of a record type.
pub fn first_attempt(protocol: Protocol) -> (r: Attempt)
    ensures
        r == (Attempt { protocol, failures: 0, fallback: false }),
{
    Attempt { protocol, failures: 0, fallback: false }
}

/// The attempt after a failure: the failure is counted over UDP, and when
/// the count reaches `retry` one TCP attempt is made, after which UDP goes
/// on from the same count; over TCP the same attempt is repeated.
pub fn after_failure(a: &Attempt, retry: usize) -> (r: Attempt)
    ensures
        r == next_attempt(*a, retry),
{
    if a.fallback {
        return Attempt { protocol: Protocol::UDP, failures: a.failures, fallback: false };
    }
    match a.protocol {
        Protocol::TCP => *a,
        Protocol::UDP => {
            let f = if a.failures < usize::MAX {
                a.failures + 1
            } else {
                a.failures
            };
            if f == retry {
                Attempt { protocol: Protocol::TCP, failures: f, fallback: true }
            } else {
                Attempt { protocol: Protocol::UDP, failures: f, fallback: false }
            }
        },
    }
}

/// The tier of an attempt.
pub fn tier_of(a: &Attempt) -> (r: Tier)
    ensures
        r == tier_for(*a),
{
    match a.protocol {
        Protocol::TCP => Tier::Tcp,
        Protocol::UDP => if a.failures < 2 {
            Tier::Restricted
        } else {
            Tier::Full
        },
    }
}

/// A resolver address for an attempt, drawn uniformly from its tier.
pub fn pick_server(a: &Attempt) -> (r: &'static str)
    ensures
        tier_servers(tier_for(*a)).contains(r@),
{
    let table = server_table(tier_of(a));
    assert(str_views(table@).len() == table@.len());
    assert(tier_servers(tier_for(*a)).len() > 0);
    let i = random_below(table.len());
    assert(str_views(table@)[i as int] == table@[i as int]@);
    table[i]
}

/// The timeout of one attempt, in seconds.
pub fn timeout_secs(p: Protocol) -> (r: u64)
    ensures
        r == (if p == Protocol::UDP {
            60u64
        } else {
            120u64
        }),
{
    match p {
        Protocol::UDP => 60,
        Protocol::TCP => 120,
    }
}

/// The pause after a failed attempt, in milliseconds.
pub const RETRY_PAUSE_MS: u64 = 300;

/// One answer record of a response, as text.
pub enum Answer {
    /// The canonical name of a CNAME record.
    Cname(String),
    /// The address of an A or AAAA record.
    Addr(String),
    /// Any other record.
    Other,
}

/// The value that an answer contributes, if any: a canonical name without
/// its trailing dots, or an address.
pub open spec fn answer_value(a: Answer) -> Option<Seq<char>> {
    match a {
        Answer::Cname(n) => Some(strip_dots(n@)),
        Answer::Addr(ip) => Some(ip@),
        Answer::Other => None,
    }
}

/// The values of the answers, in order.
pub open spec fn answer_values(answers: Seq<Answer>) -> Seq<Seq<char>>
    decreases answers.len(),
{
    if answers.len() == 0 {
        Seq::empty()
    } else {
        let rest = answer_values(answers.drop_last());
        match answer_value(answers.last()) {
            Some(v) => rest.push(v),
            None => rest,
        }
    }
}

/// Appends the values of a response's answers to `collect`.
pub fn query_response_handler(answers: &Vec<Answer>, collect: &mut Vec<String>)
    ensures
        views(final(collect)@) == views(old(collect)@) + answer_values(answers@),
{
    let mut i: usize = 0;
    while i < answers.len()
        invariant
            i <= answers.len(),
            views(collect@) == views(old(collect)@) + answer_values(answers@.subrange(0, i as int)),
        decreases answers.len() - i,
    {
        let ghost before = views(collect@);
        let ghost upto = answers@.subrange(0, i + 1);
        assert(upto.drop_last() =~= answers@.subrange(0, i as int));
        match &answers[i] {
            Answer::Cname(n) => {
                collect.push(trim_trailing_dots(n.as_str()));
                assert(views(collect@) =~= before.push(strip_dots(n@)));
            },
            Answer::Addr(ip) => {
                collect.push(ip.clone());
                assert(views(collect@) =~= before.push(ip@));
            },
            Answer::Other => {},
        }
        proof {
            assert(views(collect@) =~= views(old(collect)@) + answer_values(upto));
        }
        i = i + 1;
    }
    assert(answers@.subrange(0, answers@.len() as int) =~= answers@);
}

} // verus!
