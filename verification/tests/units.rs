use shorthand_redirect::host::HostParse;
use shorthand_redirect::json::listing_body;
use shorthand_redirect::shorthand::lookup;
use shorthand_redirect::{handle_request, parse_host, validate_entries, LoadError, Shorthand};

fn sh(short: &str, long: &str) -> Shorthand {
    Shorthand { short: short.to_string(), long: long.to_string() }
}

#[test]
fn parse_host_extracts_first_label() {
    match parse_host("gh.example.com") {
        HostParse::Valid { subdomain } => assert_eq!(subdomain, "gh"),
        HostParse::Malformed => panic!("three labels must parse"),
    }
}

#[test]
fn parse_host_rejects_two_labels() {
    assert!(matches!(parse_host("example.com"), HostParse::Malformed));
}

#[test]
fn parse_host_rejects_one_label() {
    assert!(matches!(parse_host("localhost"), HostParse::Malformed));
}

#[test]
fn parse_host_rejects_empty() {
    assert!(matches!(parse_host(""), HostParse::Malformed));
}

#[test]
fn parse_host_keeps_empty_labels() {
    match parse_host("..") {
        HostParse::Valid { subdomain } => assert_eq!(subdomain, ""),
        HostParse::Malformed => panic!("two dots make three labels"),
    }
}

#[test]
fn parse_host_four_labels() {
    match parse_host("a.b.c.d") {
        HostParse::Valid { subdomain } => assert_eq!(subdomain, "a"),
        HostParse::Malformed => panic!("four labels must parse"),
    }
}

#[test]
fn validate_accepts_ordinary_mapping() {
    let mapping = vec![sh("gh", "https://github.com"), sh("docs", "https://docs.example")];
    match validate_entries(mapping.clone()) {
        Ok(es) => assert_eq!(es, mapping),
        Err(_) => panic!("mapping without the reserved name must pass"),
    }
}

#[test]
fn validate_rejects_reserved_name() {
    let mapping = vec![sh("gh", "https://github.com"), sh("list", "https://x.com")];
    assert_eq!(validate_entries(mapping), Err(LoadError::ReservedName));
}

#[test]
fn validate_accepts_empty_mapping() {
    assert_eq!(validate_entries(Vec::new()), Ok(Vec::new()));
}

#[test]
fn lookup_finds_first_match() {
    let mapping = vec![
        sh("a", "https://one.example"),
        sh("b", "https://two.example"),
        sh("a", "https://three.example"),
    ];
    assert_eq!(lookup(&mapping, &"a".to_string()), Some("https://one.example".to_string()));
    assert_eq!(lookup(&mapping, &"b".to_string()), Some("https://two.example".to_string()));
    assert_eq!(lookup(&mapping, &"c".to_string()), None);
}

#[test]
fn lookup_is_case_sensitive() {
    let mapping = vec![sh("GH", "https://github.com")];
    assert_eq!(lookup(&mapping, &"gh".to_string()), None);
    assert_eq!(lookup(&mapping, &"GH".to_string()), Some("https://github.com".to_string()));
}

#[test]
fn empty_mapping_lists_as_empty_array() {
    let outcome = handle_request("list.example.com", Ok(Vec::new()));
    assert_eq!(outcome.status_code(), 200);
    assert_eq!(outcome.body(), "[]");
}

#[test]
fn listing_joins_entries_with_commas() {
    let mapping = vec![sh("a", "https://one.example"), sh("b", "https://two.example")];
    assert_eq!(
        listing_body(&mapping),
        r#"[{"short":"a","long":"https://one.example"},{"short":"b","long":"https://two.example"}]"#
    );
}

#[test]
fn listing_escapes_quotes_and_backslashes() {
    let mapping = vec![sh("q\"u", "back\\slash")];
    assert_eq!(
        listing_body(&mapping),
        "[{\"short\":\"q\\\"u\",\"long\":\"back\\\\slash\"}]"
    );
}

#[test]
fn listing_escapes_control_characters() {
    let mapping = vec![sh("nl", "a\nb\tc\r\u{8}\u{c}\u{1}\u{1f}")];
    assert_eq!(
        listing_body(&mapping),
        "[{\"short\":\"nl\",\"long\":\"a\\nb\\tc\\r\\b\\f\\u0001\\u001f\"}]"
    );
}

#[test]
fn listing_round_trips_through_serde_json() {
    let mapping = vec![
        sh("q\"u", "https://x.example/\\path\npart"),
        sh("ctl", "bell\u{7}end\u{1f}"),
        sh("uni", "caf\u{e9} \u{1f600}"),
    ];
    let body = listing_body(&mapping);
    let parsed: serde_json::Value = serde_json::from_str(&body).unwrap();
    let arr = parsed.as_array().unwrap();
    assert_eq!(arr.len(), mapping.len());
    for (value, entry) in arr.iter().zip(mapping.iter()) {
        let obj = value.as_object().unwrap();
        assert_eq!(obj.len(), 2);
        assert_eq!(obj["short"].as_str().unwrap(), entry.short);
        assert_eq!(obj["long"].as_str().unwrap(), entry.long);
    }
}

#[test]
fn string_escaping_matches_serde_json() {
    let tricky = "q\"u back\\slash a\nb\tc\r\u{8}\u{c}\u{1}\u{1f} caf\u{e9}";
    let mapping = vec![sh("", tricky)];
    let body = listing_body(&mapping);
    let expected_fragment = serde_json::to_string(tricky).unwrap();
    assert_eq!(body, format!("[{{\"short\":\"\",\"long\":{}}}]", expected_fragment));
}

#[test]
fn outcome_status_codes_cover_all_variants() {
    let gh = vec![sh("gh", "https://github.com")];
    assert_eq!(handle_request("example.com", Ok(gh.clone())).status_code(), 400);
    assert_eq!(handle_request("list.example.com", Ok(gh.clone())).status_code(), 200);
    assert_eq!(handle_request("gh.example.com", Ok(gh.clone())).status_code(), 302);
    assert_eq!(handle_request("nope.example.com", Ok(gh.clone())).status_code(), 404);
    assert_eq!(
        handle_request("gh.example.com", Err(LoadError::Read("boom".to_string()))).status_code(),
        500
    );
}
