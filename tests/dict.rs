use baddns::dict::Dict;

fn lines(v: &[&str]) -> Vec<String> {
    v.iter().map(|s| s.to_string()).collect()
}

#[test]
fn dict_test_is_exist() {
    let d = Dict::new(lines(&["api", "admin", "mail", "dev"]));
    assert_eq!(d.is_exist(&"www".to_string()), false);
    assert_eq!(d.is_exist(&"api".to_string()), true);
    assert_eq!(d.is_exist(&"search".to_string()), false);
}

#[test]
fn dict_lines_are_trimmed_lowercased_sorted_and_deduplicated() {
    let d = Dict::new(lines(&["  WWW ", "api", "www", "Mail", "api"]));
    assert_eq!(d.len(), 3);
    assert_eq!(d.get_dict(), lines(&["api", "mail", "www"]));
}

#[test]
fn dict_drops_labels_that_make_no_domain_name() {
    let d = Dict::new(lines(&["ok", "bad label", "x\u{7}y", ""]));
    assert!(d.is_exist(&"ok".to_string()));
    assert!(!d.is_exist(&"bad label".to_string()));
    assert!(!d.is_exist(&"x\u{7}y".to_string()));
}

#[test]
fn dict_load_twice_is_identical() {
    let input = lines(&["zeta", "alpha", "Beta", "alpha", " gamma "]);
    let a = Dict::new(input.clone()).get_dict();
    let b = Dict::new(input).get_dict();
    assert_eq!(a, b);
    assert_eq!(a, lines(&["alpha", "beta", "gamma", "zeta"]));
}

#[test]
fn dict_empty_file() {
    let d = Dict::new(Vec::new());
    assert_eq!(d.len(), 0);
    assert!(!d.is_exist(&"api".to_string()));
}
