use baddns::logger::LoggingLevel;
use baddns::write_handler::{encode_result, frame_item, output_close, output_open, ResultsSubDomain};

fn result(name: &str, values: &[&str]) -> ResultsSubDomain {
    ResultsSubDomain {
        subdomain: name.to_string(),
        collect: values.iter().map(|s| s.to_string()).collect(),
    }
}

#[test]
fn encodes_one_result() {
    assert_eq!(
        encode_result(&result("www.example.com", &["1.2.3.4", "a.b"])),
        "{\"subdomain\":\"www.example.com\",\"collect\":[\"1.2.3.4\",\"a.b\"]}"
    );
    assert_eq!(encode_result(&result("q\"x", &[])), "{\"subdomain\":\"q\\\"x\",\"collect\":[]}");
}

#[test]
fn stream_without_sentinel_is_the_results_in_order() {
    let rs = vec![result("b.example.com", &["1.1.1.1"]), result("a.example.com", &["x.y", "2.2.2.2"])];
    let mut out = output_open();
    for r in &rs {
        out.push_str(&frame_item(r));
    }
    out.push_str(&output_close());
    assert!(out.starts_with("[\n"));
    assert!(out.ends_with(",\n{}\n]"));
    let all: serde_json::Value = serde_json::from_str(&out).unwrap();
    let items = all.as_array().unwrap();
    assert_eq!(items.len(), 3);
    assert_eq!(items[2], serde_json::Value::Object(serde_json::Map::new()));
    for (i, r) in rs.iter().enumerate() {
        assert_eq!(items[i]["subdomain"], r.subdomain.as_str());
        let values: Vec<String> = items[i]["collect"]
            .as_array()
            .unwrap()
            .iter()
            .map(|v| v.as_str().unwrap().to_string())
            .collect();
        assert_eq!(values, r.collect);
    }
}

#[test]
fn empty_stream() {
    let out = output_open() + &output_close();
    assert_eq!(out, "[\n{}\n]");
}

#[test]
fn logging_levels() {
    assert_eq!(LoggingLevel::from_verbosity(0), LoggingLevel::Off);
    assert_eq!(LoggingLevel::from_verbosity(1), LoggingLevel::Normal);
    assert_eq!(LoggingLevel::from_verbosity(2), LoggingLevel::Critical);
    assert_eq!(LoggingLevel::from_verbosity(3), LoggingLevel::Debug);
    assert_eq!(LoggingLevel::from_verbosity(7), LoggingLevel::Off);
    assert_eq!(LoggingLevel::Normal.filter_rank(), 3);
    assert_eq!(LoggingLevel::Critical.name(), "critical");
}
