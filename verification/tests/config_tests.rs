use lient_core::config::{base64, Auth, ConfigError, JiraConfig};

fn cfg(base_url: &str, auth: Auth, api_version: &str) -> JiraConfig {
    JiraConfig { base_url: base_url.to_string(), auth, api_version: api_version.to_string() }
}

#[test]
fn base64_matches_known_vectors() {
    assert_eq!(base64(b""), "");
    assert_eq!(base64(b"f"), "Zg==");
    assert_eq!(base64(b"fo"), "Zm8=");
    assert_eq!(base64(b"foo"), "Zm9v");
    assert_eq!(base64(b"foobar"), "Zm9vYmFy");
    // the real shape we send: email:token
    assert_eq!(base64(b"a@b.com:tok"), "YUBiLmNvbTp0b2s=");
}

#[test]
fn auth_headers() {
    let cloud = cfg(
        "https://x.atlassian.net",
        Auth::Basic { email: "a@b.com".to_string(), token: "tok".to_string() },
        "2",
    );
    assert_eq!(cloud.auth_header(), "Basic YUBiLmNvbTp0b2s=");

    let server = cfg("https://jira.co/", Auth::Bearer { token: "PAT123".to_string() }, "2");
    assert_eq!(server.auth_header(), "Bearer PAT123");
}

#[test]
fn url_building_is_slash_safe() {
    let c = cfg("https://jira.co/", Auth::Bearer { token: "x".to_string() }, "2");
    assert_eq!(c.api_url("search"), "https://jira.co/rest/api/2/search");
    assert_eq!(c.api_url("/issue/ENG-1"), "https://jira.co/rest/api/2/issue/ENG-1");
    assert_eq!(c.browse_url("ENG-1"), "https://jira.co/browse/ENG-1");
}

#[test]
fn all_auth_methods_produce_headers() {
    let mk = |auth| cfg("https://x.atlassian.net", auth, "3");
    assert_eq!(
        mk(Auth::Password { username: "marc".to_string(), password: "pw".to_string() }).auth_header(),
        format!("Basic {}", base64(b"marc:pw"))
    );
    assert_eq!(mk(Auth::Bearer { token: "PAT".to_string() }).auth_header(), "Bearer PAT");
    assert_eq!(
        mk(Auth::OAuth {
            access_token: "AT".to_string(),
            refresh_token: "RT".to_string(),
            expires_at: 0,
            cloud_id: "cid".to_string(),
        })
        .auth_header(),
        "Bearer AT"
    );
    assert_eq!(mk(Auth::Raw { header: "Bearer custom".to_string() }).auth_header(), "Bearer custom");
}

#[test]
fn oauth_routes_through_atlassian_api() {
    let c = cfg(
        "https://acme.atlassian.net",
        Auth::OAuth {
            access_token: "AT".to_string(),
            refresh_token: String::new(),
            expires_at: 0,
            cloud_id: "abc-123".to_string(),
        },
        "3",
    );
    // API calls go to api.atlassian.com/ex/jira/{cloudId}, …
    assert_eq!(c.api_url("myself"), "https://api.atlassian.com/ex/jira/abc-123/rest/api/3/myself");
    // …but the browse link still points at the human site.
    assert_eq!(c.browse_url("ENG-1"), "https://acme.atlassian.net/browse/ENG-1");
}

#[test]
fn basic_header_encodes_user_and_password() {
    let c = cfg("https://x", Auth::Password { username: "marc".to_string(), password: "pw".to_string() }, "2");
    assert_eq!(c.auth_header(), "Basic bWFyYzpwdw==");
}

#[test]
fn trailing_slashes_on_the_site_do_not_matter() {
    let a = cfg("https://jira.co///", Auth::Bearer { token: "x".to_string() }, "2");
    let b = cfg("https://jira.co", Auth::Bearer { token: "x".to_string() }, "2");
    assert_eq!(a.api_url("//search"), b.api_url("search"));
    assert_eq!(a.servicedesk_url("/request/X-1/comment"), "https://jira.co/rest/servicedeskapi/request/X-1/comment");
    assert_eq!(a.servicedesk_url("request/X-1/comment"), b.servicedesk_url("/request/X-1/comment"));
    assert_eq!(a.browse_url("X-1"), b.browse_url("X-1"));
}

#[test]
fn oauth_service_desk_goes_through_gateway() {
    let c = cfg(
        "https://acme.atlassian.net/",
        Auth::OAuth {
            access_token: "AT".to_string(),
            refresh_token: String::new(),
            expires_at: 0,
            cloud_id: "cid".to_string(),
        },
        "3",
    );
    assert_eq!(c.servicedesk_url("request/A-1/comment"), "https://api.atlassian.com/ex/jira/cid/rest/servicedeskapi/request/A-1/comment");
    assert_eq!(c.browse_url("A-1"), "https://acme.atlassian.net/browse/A-1");
}

#[test]
fn config_from_env_picks_the_auth() {
    assert!(JiraConfig::from_env(None, Some("a@b.com".to_string()), Some("t".to_string())).is_none());
    match JiraConfig::from_env(Some("https://x".to_string()), None, None) {
        Some(Err(e)) => {
            assert_eq!(e, ConfigError::MissingToken);
            assert_eq!(e.message(), "LIENT_URL set but LIENT_TOKEN missing");
        }
        _ => panic!("expected the missing-token error"),
    }
    match JiraConfig::from_env(Some("https://x".to_string()), Some("a@b.com".to_string()), Some("t".to_string())) {
        Some(Ok(c)) => {
            assert_eq!(c.auth, Auth::Basic { email: "a@b.com".to_string(), token: "t".to_string() });
            assert_eq!(c.api_version, "2");
            assert_eq!(c.base_url, "https://x");
        }
        _ => panic!("expected a config"),
    }
    match JiraConfig::from_env(Some("https://x".to_string()), Some(String::new()), Some("t".to_string())) {
        Some(Ok(c)) => assert_eq!(c.auth, Auth::Bearer { token: "t".to_string() }),
        _ => panic!("expected a config"),
    }
}
