use baddns::query::{
    after_failure, first_attempt, gen_subdomain, pick_server, query_response_handler, server_table,
    tier_of, timeout_secs, Answer, Attempt, Protocol, Tier,
};

#[test]
fn udp_failures_cross_over_to_one_tcp_attempt() {
    let mut a = first_attempt(Protocol::UDP);
    assert_eq!(tier_of(&a), Tier::Restricted);
    a = after_failure(&a, 3);
    assert_eq!(a, Attempt { protocol: Protocol::UDP, failures: 1, fallback: false });
    assert_eq!(tier_of(&a), Tier::Restricted);
    a = after_failure(&a, 3);
    assert_eq!(tier_of(&a), Tier::Full);
    a = after_failure(&a, 3);
    assert_eq!(a, Attempt { protocol: Protocol::TCP, failures: 3, fallback: true });
    assert_eq!(tier_of(&a), Tier::Tcp);
    a = after_failure(&a, 3);
    assert_eq!(a, Attempt { protocol: Protocol::UDP, failures: 3, fallback: false });
    a = after_failure(&a, 3);
    assert_eq!(a, Attempt { protocol: Protocol::UDP, failures: 4, fallback: false });
}

#[test]
fn tcp_retries_stay_on_tcp() {
    let a = first_attempt(Protocol::TCP);
    assert_eq!(after_failure(&a, 3), a);
}

#[test]
fn server_tables_and_picks() {
    assert_eq!(server_table(Tier::Restricted).len(), 11);
    assert_eq!(server_table(Tier::Full).len(), 21);
    assert_eq!(server_table(Tier::Tcp).len(), 8);
    let a = first_attempt(Protocol::TCP);
    for _ in 0..20 {
        let s = pick_server(&a);
        assert!(server_table(Tier::Tcp).contains(&s));
    }
    let b = Attempt { protocol: Protocol::UDP, failures: 5, fallback: false };
    assert!(server_table(Tier::Full).contains(&pick_server(&b)));
    assert_eq!(timeout_secs(Protocol::UDP), 60);
    assert_eq!(timeout_secs(Protocol::TCP), 120);
}

#[test]
fn answers_become_values() {
    let mut collect = vec!["0.0.0.0".to_string()];
    let answers = vec![
        Answer::Cname("alias.example.net.".to_string()),
        Answer::Other,
        Answer::Addr("93.184.216.34".to_string()),
    ];
    query_response_handler(&answers, &mut collect);
    assert_eq!(
        collect,
        vec!["0.0.0.0".to_string(), "alias.example.net".to_string(), "93.184.216.34".to_string()]
    );
}

#[test]
fn domain_name_validation() {
    assert!(gen_subdomain("www", ".1.com").is_some());
    assert!(gen_subdomain("www", "  .1.com ").is_some());
    assert!(gen_subdomain("w w", ".1.com").is_none());
}
