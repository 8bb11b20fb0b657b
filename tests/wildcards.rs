use baddns::wildcards::{probe_names, Wildcards};

#[test]
fn wildcards_test_is_exist() {
    let mut w = Wildcards::new();
    w.lists = vec![
        "170.33.0.251".to_string(),
        "31.13.83.16.t".to_string(),
        "www.58coin.com".to_string(),
        "www.58ex.com".to_string(),
    ];
    assert_eq!(w.is_exist(&"1.1.1.1".to_string()), false);
    assert_eq!(w.is_exist(&"170.33.0.251".to_string()), true);
    assert_eq!(w.is_exist(&"www.58coin.com".to_string()), true);
}

#[test]
fn wildcards_get_list_sorts_and_deduplicates() {
    let mut w = Wildcards::new();
    w.set_item("5.6.7.8".to_string());
    w.set_item("1.2.3.4".to_string());
    w.set_item("5.6.7.8".to_string());
    assert_eq!(w.lists.len(), 3);
    let l = w.get_list();
    assert_eq!(l, vec!["1.2.3.4".to_string(), "5.6.7.8".to_string()]);
    assert_eq!(w.lists, l);
    assert_eq!(w.len(), 2);
}

#[test]
fn wildcards_probe_names() {
    let names = probe_names(
        &vec!["example.com.".to_string(), " test.org. ".to_string()],
        &vec![" api ".to_string()],
    );
    assert_eq!(
        names,
        vec![
            "d6p4lfaojz.example.com.".to_string(),
            "d6p4lfaojz.api.example.com.".to_string(),
            "d6p4lfaojz.test.org.".to_string(),
            "d6p4lfaojz.api.test.org.".to_string(),
        ]
    );
}
