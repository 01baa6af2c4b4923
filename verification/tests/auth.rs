use std::time::{Duration, Instant};
use ziee_mcp::auth::{parse_www_authenticate, StoredToken};

#[test]
fn parses_www_authenticate_with_quotes_and_spaces() {
    let h = r#"Bearer resource_metadata="https://srv/.well-known/oauth-protected-resource", scope="mcp read""#;
    let p = parse_www_authenticate(h);
    assert_eq!(
        p.resource_metadata.as_deref(),
        Some("https://srv/.well-known/oauth-protected-resource")
    );
    assert_eq!(p.scope.as_deref(), Some("mcp read"));
}

#[test]
fn parses_www_authenticate_lowercase_scheme_no_quotes() {
    let p = parse_www_authenticate("bearer resource_metadata=https://x/prm");
    assert_eq!(p.resource_metadata.as_deref(), Some("https://x/prm"));
    assert!(p.scope.is_none());
}

#[test]
fn token_validity_respects_skew() {
    let expired = StoredToken {
        access_token: "t".into(),
        refresh_token: None,
        expires_at: Some(Instant::now() + Duration::from_secs(10)),
    };
    assert!(!expired.is_valid(), "token within the 30s skew is treated as expired");
    let fresh = StoredToken {
        access_token: "t".into(),
        refresh_token: None,
        expires_at: Some(Instant::now() + Duration::from_secs(120)),
    };
    assert!(fresh.is_valid());
    let no_expiry = StoredToken {
        access_token: "t".into(),
        refresh_token: None,
        expires_at: None,
    };
    assert!(no_expiry.is_valid());
}

#[test]
fn other_scheme_keeps_only_its_well_formed_parts() {
    // Without a Bearer prefix the scheme stays glued to the first key.
    let p = parse_www_authenticate(r#"Basic realm="x", scope="a""#);
    assert!(p.resource_metadata.is_none());
    assert_eq!(p.scope.as_deref(), Some("a"));
}

#[test]
fn repeated_key_keeps_last_value_and_quotes_are_stripped() {
    let p = parse_www_authenticate(r#"Bearer scope="a", SCOPE = ""b"" , junk"#);
    assert_eq!(p.scope.as_deref(), Some("b"));
}

#[test]
fn token_validity_at_a_fixed_instant() {
    let now = Instant::now();
    let at_skew = StoredToken {
        access_token: "t".into(),
        refresh_token: None,
        expires_at: Some(now + Duration::from_secs(30)),
    };
    assert!(!at_skew.is_valid_at(now), "exactly 30 s left is not enough");
    let past_skew = StoredToken {
        access_token: "t".into(),
        refresh_token: None,
        expires_at: Some(now + Duration::from_secs(31)),
    };
    assert!(past_skew.is_valid_at(now));
    let past = StoredToken {
        access_token: "t".into(),
        refresh_token: None,
        expires_at: Some(now),
    };
    assert!(!past.is_valid_at(now + Duration::from_secs(5)));
}

use ziee_mcp::auth::{
    basic_authorization, challenge_metadata_url, client_credentials_form, first_authorization_server,
    refresh_token_form, token_endpoint_candidates, token_endpoint_error, OAuthClientConfig,
};

fn config(scopes: Option<&str>, resource: Option<&str>) -> OAuthClientConfig {
    OAuthClientConfig {
        client_id: "app".into(),
        client_secret: "s3cr:et".into(),
        scopes: scopes.map(|s| s.to_string()),
        resource: resource.map(|s| s.to_string()),
    }
}

fn pairs(v: &[(&str, &str)]) -> Vec<(String, String)> {
    v.iter().map(|(a, b)| (a.to_string(), b.to_string())).collect()
}

#[test]
fn token_request_forms() {
    assert_eq!(
        client_credentials_form(&config(Some("mcp read"), Some("https://srv/mcp"))),
        pairs(&[("grant_type", "client_credentials"), ("scope", "mcp read"), ("resource", "https://srv/mcp")])
    );
    assert_eq!(
        client_credentials_form(&config(Some(""), None)),
        pairs(&[("grant_type", "client_credentials")]),
        "an empty scope is left out"
    );
    assert_eq!(
        refresh_token_form("r1"),
        pairs(&[("grant_type", "refresh_token"), ("refresh_token", "r1")])
    );
}

#[test]
fn basic_authorization_is_base64_of_id_colon_secret() {
    // base64("app:s3cr:et") per RFC 4648.
    assert_eq!(basic_authorization(&config(None, None)), "Basic YXBwOnMzY3I6ZXQ=");
    let unicode = OAuthClientConfig {
        client_id: "é".into(),
        client_secret: "".into(),
        scopes: None,
        resource: None,
    };
    assert_eq!(basic_authorization(&unicode), "Basic w6k6");
}

#[test]
fn discovery_urls_and_errors() {
    let (oauth, openid, fallback) = token_endpoint_candidates("https://as.example//");
    assert_eq!(oauth, "https://as.example/.well-known/oauth-authorization-server");
    assert_eq!(openid, "https://as.example/.well-known/openid-configuration");
    assert_eq!(fallback, "https://as.example/token");
    assert_eq!(first_authorization_server(&vec!["https://a".into(), "https://b".into()]).unwrap(), "https://a");
    assert_eq!(
        first_authorization_server(&vec![]).unwrap_err().message,
        "OAuth PRM lists no authorization_servers"
    );
    assert_eq!(
        token_endpoint_error("400 Bad Request", "invalid_client"),
        "OAuth token endpoint returned HTTP 400 Bad Request: invalid_client"
    );
    let c = parse_www_authenticate("Bearer scope=\"x\"");
    assert_eq!(
        challenge_metadata_url(&c).unwrap_err().message,
        "OAuth challenge missing resource_metadata; cannot discover authorization server"
    );
    let c = parse_www_authenticate("Bearer resource_metadata=\"https://r/prm\"");
    assert_eq!(challenge_metadata_url(&c).unwrap(), "https://r/prm");
}
