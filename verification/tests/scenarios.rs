use shorthand_redirect::{handle_request, LoadError, Shorthand};

fn sh(short: &str, long: &str) -> Shorthand {
    Shorthand { short: short.to_string(), long: long.to_string() }
}

fn gh_mapping() -> Vec<Shorthand> {
    vec![sh("gh", "https://github.com")]
}

#[test]
fn known_subdomain_redirects() {
    let outcome = handle_request("gh.example.com", Ok(gh_mapping()));
    assert_eq!(outcome.status_code(), 302);
    assert_eq!(outcome.location(), Some("https://github.com".to_string()));
    assert_eq!(outcome.body(), "Redirecting to: https://github.com");
    assert_eq!(outcome.content_type(), None);
}

#[test]
fn unknown_subdomain_is_not_found() {
    let outcome = handle_request("foo.example.com", Ok(gh_mapping()));
    assert_eq!(outcome.status_code(), 404);
    assert_eq!(outcome.body(), "not found");
    assert_eq!(outcome.location(), None);
}

#[test]
fn bare_domain_is_bad_request() {
    let outcome = handle_request("example.com", Ok(gh_mapping()));
    assert_eq!(outcome.status_code(), 400);
    assert_eq!(outcome.body(), "no subdomain provided");
    assert_eq!(outcome.location(), None);
}

#[test]
fn list_subdomain_returns_mapping_as_json() {
    let outcome = handle_request("list.example.com", Ok(gh_mapping()));
    assert_eq!(outcome.status_code(), 200);
    assert_eq!(outcome.body(), r#"[{"short":"gh","long":"https://github.com"}]"#);
    assert_eq!(outcome.content_type(), Some("application/json".to_string()));
    assert_eq!(outcome.location(), None);
}

#[test]
fn reserved_short_fails_every_request() {
    let mapping = vec![sh("list", "https://x.com")];
    for host in ["gh.example.com", "foo.example.com", "list.example.com"] {
        let outcome = handle_request(host, Ok(mapping.clone()));
        assert_eq!(outcome.status_code(), 500);
        assert_eq!(
            outcome.body(),
            "Internal server error: the shorthand 'list' is reserved"
        );
    }
}

#[test]
fn same_request_twice_is_identical() {
    let first = handle_request("gh.example.com", Ok(gh_mapping()));
    let second = handle_request("gh.example.com", Ok(gh_mapping()));
    assert_eq!(first.status_code(), second.status_code());
    assert_eq!(first.location(), second.location());
    assert_eq!(first.content_type(), second.content_type());
    assert_eq!(first.body(), second.body());
}

#[test]
fn read_error_surfaces_as_internal_error() {
    let outcome = handle_request(
        "gh.example.com",
        Err(LoadError::Read("No such file or directory".to_string())),
    );
    assert_eq!(outcome.status_code(), 500);
    assert_eq!(
        outcome.body(),
        "Internal server error: No such file or directory"
    );
}

#[test]
fn parse_error_surfaces_as_internal_error() {
    let outcome = handle_request(
        "gh.example.com",
        Err(LoadError::Parse("expected value at line 1 column 1".to_string())),
    );
    assert_eq!(outcome.status_code(), 500);
    assert_eq!(
        outcome.body(),
        "Internal server error: expected value at line 1 column 1"
    );
}

#[test]
fn bad_request_wins_over_load_error() {
    let outcome = handle_request("localhost", Err(LoadError::Read("boom".to_string())));
    assert_eq!(outcome.status_code(), 400);
    assert_eq!(outcome.body(), "no subdomain provided");
}

#[test]
fn list_host_without_subdomain_is_bad_request() {
    let outcome = handle_request("list.com", Ok(gh_mapping()));
    assert_eq!(outcome.status_code(), 400);
}

#[test]
fn duplicate_shorts_first_match_wins() {
    let mapping = vec![sh("gh", "https://first.example"), sh("gh", "https://second.example")];
    let outcome = handle_request("gh.example.com", Ok(mapping));
    assert_eq!(outcome.status_code(), 302);
    assert_eq!(outcome.location(), Some("https://first.example".to_string()));
}

#[test]
fn deeper_subdomains_use_first_label_only() {
    let outcome = handle_request("gh.eu.example.com", Ok(gh_mapping()));
    assert_eq!(outcome.status_code(), 302);
    assert_eq!(outcome.location(), Some("https://github.com".to_string()));
}
