use lient_core::oauth::epoch_secs_from;
use lient_core::config::JiraConfig;
use lient_core::oauth::{apply_refresh, auth_step, AuthStep};
use lient_core::config::Auth;
use lient_core::oauth::{
    accept_callback, authorize_url, base64url, dec, enc, epoch_secs, exchange_body, first_resource,
    parse_callback, pkce_challenge, pkce_pair, rand_token, redirect_uri, refresh_body, refreshed,
    require_client_id, signed_in_config, OAuthError, Resource, TokenResponse,
};
use lient_core::json::Json;
use sha2::Digest;

#[test]
fn pkce_pair_is_well_formed() {
    let (v, c) = pkce_pair().expect("OS RNG");
    // verifier: 32 bytes → 43 url-safe base64 chars, no padding
    assert_eq!(v.len(), 43);
    assert!(!v.contains('=') && !v.contains('+') && !v.contains('/'));
    // challenge: sha256 (32 bytes) → 43 chars
    assert_eq!(c.len(), 43);
    // S256 known vector: challenge = base64url(sha256(verifier))
    assert_eq!(c, base64url(&sha2::Sha256::digest(v.as_bytes())));
}

#[test]
fn base64url_known_vectors() {
    assert_eq!(base64url(b"foobar"), "Zm9vYmFy");
    // padding stripped, url-safe alphabet
    assert_eq!(base64url(b"fo"), "Zm8");
}

#[test]
fn authorize_url_has_required_params() {
    let u = authorize_url("CID", "http://localhost:5000/callback", "st8", "chal");
    assert!(u.starts_with("https://auth.atlassian.com/authorize"));
    assert!(u.contains("client_id=CID"));
    assert!(u.contains("code_challenge=chal"));
    assert!(u.contains("code_challenge_method=S256"));
    assert!(u.contains("response_type=code"));
    // redirect_uri is percent-encoded
    assert!(u.contains("redirect_uri=http%3A%2F%2Flocalhost%3A5000%2Fcallback"));
}

#[test]
fn parse_callback_extracts_code_and_state() {
    let req = "GET /callback?code=ABC123&state=xyz HTTP/1.1\r\nHost: localhost\r\n\r\n";
    let (code, state) = parse_callback(req).unwrap();
    assert_eq!(code, "ABC123");
    assert_eq!(state, "xyz");
}

#[test]
fn parse_callback_surfaces_errors_and_decodes() {
    assert!(parse_callback("GET /callback?error=access_denied HTTP/1.1\r\n").is_err());
    let (code, _) = parse_callback("GET /callback?code=a%2Bb&state=s HTTP/1.1\r\n").unwrap();
    assert_eq!(code, "a+b"); // percent-decoded
}

#[test]
fn base64url_uses_the_url_safe_alphabet() {
    // 0xfb 0xff → "+/8=" in standard base64
    assert_eq!(base64url(&[0xfb, 0xff]), "-_8");
    assert_eq!(base64url(b"f"), "Zg");
    assert_eq!(base64url(b""), "");
}

#[test]
fn enc_keeps_unreserved_and_escapes_the_rest() {
    assert_eq!(enc("aZ09-_.~"), "aZ09-_.~");
    assert_eq!(enc("a b/c"), "a%20b%2Fc");
    assert_eq!(enc("é"), "%C3%A9");
}

#[test]
fn dec_undoes_enc() {
    for s in ["", "plain", "a b+c/d?e=f&g", "read:jira-work write:jira-work", "héllo wörld ✓"] {
        assert_eq!(dec(&enc(s)), s);
    }
    assert_eq!(dec("a+b"), "a b");
    assert_eq!(dec("100%"), "100%");
    assert_eq!(dec("%zz"), "%zz");
    assert_eq!(dec("%41%42"), "AB");
    assert_eq!(dec("%ff"), "\u{fffd}");
}

#[test]
fn parse_callback_error_variants() {
    match parse_callback("GET /callback?error=access_denied HTTP/1.1\r\n") {
        Err(OAuthError::Denied(why)) => assert_eq!(why, "access_denied"),
        _ => panic!("expected a denial"),
    }
    match parse_callback("GET /callback?state=s HTTP/1.1\r\n") {
        Err(e) => {
            assert_eq!(e, OAuthError::NoCode);
            assert_eq!(e.message(), "no authorization code in the redirect");
        }
        _ => panic!("expected no code"),
    }
    assert_eq!(parse_callback(""), Err(OAuthError::NoCode));
    assert_eq!(
        parse_callback("GET /callback?code=c%20d&state=x%3Dy&other=1 HTTP/1.1"),
        Ok(("c d".to_string(), "x=y".to_string()))
    );
}

#[test]
fn callback_state_must_match() {
    let ok = accept_callback(Ok(("CODE".to_string(), "st".to_string())), "st");
    assert_eq!(ok, Ok("CODE".to_string()));
    let bad = accept_callback(Ok(("CODE".to_string(), "other".to_string())), "st");
    assert_eq!(bad, Err(OAuthError::StateMismatch));
    let passed = accept_callback(Err(OAuthError::NoCode), "st");
    assert_eq!(passed, Err(OAuthError::NoCode));
}

#[test]
fn client_id_is_required() {
    assert_eq!(require_client_id("  "), Err(OAuthError::MissingClientId));
    assert_eq!(require_client_id("cid"), Ok(()));
}

#[test]
fn redirect_uri_names_the_port() {
    assert_eq!(redirect_uri(5000), "http://localhost:5000/callback");
    assert_eq!(redirect_uri(0), "http://localhost:0/callback");
}

#[test]
fn first_resource_picks_the_first_site() {
    let list = vec![
        Resource { id: "c1".to_string(), url: "https://a.atlassian.net".to_string() },
        Resource { id: "c2".to_string(), url: "https://b.atlassian.net".to_string() },
    ];
    assert_eq!(first_resource(list), Ok(("c1".to_string(), "https://a.atlassian.net".to_string())));
    assert_eq!(first_resource(Vec::new()), Err(OAuthError::NoSites));
}

#[test]
fn refresh_keeps_the_old_token_when_none_is_sent() {
    let t = TokenResponse { access_token: "A2".to_string(), refresh_token: String::new(), expires_in: 3600 };
    assert_eq!(refreshed("R1", t, 1000), ("A2".to_string(), "R1".to_string(), 4600));
    let t = TokenResponse { access_token: "A3".to_string(), refresh_token: "R2".to_string(), expires_in: 60 };
    assert_eq!(refreshed("R1", t, 0), ("A3".to_string(), "R2".to_string(), 60));
}

#[test]
fn signed_in_config_uses_api_v3_and_oauth() {
    let t = TokenResponse { access_token: "AT".to_string(), refresh_token: "RT".to_string(), expires_in: 100 };
    let c = signed_in_config(t, "cid".to_string(), "https://acme.atlassian.net".to_string(), 5);
    assert_eq!(c.api_version, "3");
    assert_eq!(c.base_url, "https://acme.atlassian.net");
    assert_eq!(
        c.auth,
        Auth::OAuth { access_token: "AT".to_string(), refresh_token: "RT".to_string(), expires_at: 105, cloud_id: "cid".to_string() }
    );
}

#[test]
fn token_request_bodies() {
    let b = refresh_body("cid", "rt");
    assert_eq!(
        b,
        Json::Object(vec![
            ("grant_type".to_string(), Json::Str("refresh_token".to_string())),
            ("client_id".to_string(), Json::Str("cid".to_string())),
            ("refresh_token".to_string(), Json::Str("rt".to_string())),
        ])
    );
    let e = exchange_body("cid", None, "code", "http://localhost:1/callback", "ver");
    match &e {
        Json::Object(entries) => assert_eq!(entries.len(), 5),
        _ => panic!("expected an object"),
    }
    let e = exchange_body("cid", Some("sec"), "code", "http://localhost:1/callback", "ver");
    match &e {
        Json::Object(entries) => {
            assert_eq!(entries.len(), 6);
            assert_eq!(entries[5], ("client_secret".to_string(), Json::Str("sec".to_string())));
            assert_eq!(entries[2], ("code".to_string(), Json::Str("code".to_string())));
        }
        _ => panic!("expected an object"),
    }
}

#[test]
fn pkce_challenge_known_vector() {
    // SHA-256("abc") = ba7816bf…f20015ad, base64url-encoded without padding
    assert_eq!(pkce_challenge("abc"), "ungWv48Bz-pBQUDeXa4iI7ADYaOWF3qctBD_YfIAFa0");
}

#[test]
fn random_tokens_have_the_encoded_length() {
    let t = rand_token(8).expect("OS RNG");
    assert_eq!(t.len(), 11);
    let u = rand_token(8).expect("OS RNG");
    assert_ne!(t, u);
    assert_eq!(rand_token(0), Some(String::new()));
}

#[test]
fn the_clock_is_after_the_epoch() {
    assert!(epoch_secs() > 1_600_000_000);
}

#[test]
fn epoch_seconds_from_clock_readings() {
    assert_eq!(epoch_secs_from(None), 0);
    assert_eq!(epoch_secs_from(Some(1_700_000_000)), 1_700_000_000);
    assert_eq!(epoch_secs_from(Some(u64::MAX)), i64::MAX);
}

#[test]
fn expiring_oauth_tokens_are_refreshed_first() {
    let oauth = |expires_at: i64, refresh: &str| JiraConfig {
        base_url: "https://acme.atlassian.net".to_string(),
        auth: Auth::OAuth {
            access_token: "A1".to_string(),
            refresh_token: refresh.to_string(),
            expires_at,
            cloud_id: "cid".to_string(),
        },
        api_version: "3".to_string(),
    };
    match auth_step(&oauth(1000, "R1"), 1000) {
        AuthStep::Refresh { refresh_token } => assert_eq!(refresh_token, "R1"),
        _ => panic!("an expired token is refreshed"),
    }
    assert!(matches!(auth_step(&oauth(1050, "R1"), 1000), AuthStep::Refresh { .. }));
    assert!(matches!(auth_step(&oauth(1061, "R1"), 1000), AuthStep::Ready));
    assert!(matches!(auth_step(&oauth(0, ""), 1000), AuthStep::Ready));
    let pat = JiraConfig { base_url: "https://x".to_string(), auth: Auth::Bearer { token: "P".to_string() }, api_version: "2".to_string() };
    assert!(matches!(auth_step(&pat, i64::MAX), AuthStep::Ready));

    let renewed = apply_refresh(oauth(1000, "R1"), "A2".to_string(), "R2".to_string(), 5000);
    assert_eq!(renewed.auth_header(), "Bearer A2");
    assert_eq!(renewed.api_url("myself"), "https://api.atlassian.com/ex/jira/cid/rest/api/3/myself");
    assert_eq!(
        renewed.auth,
        Auth::OAuth { access_token: "A2".to_string(), refresh_token: "R2".to_string(), expires_at: 5000, cloud_id: "cid".to_string() }
    );
    assert!(matches!(auth_step(&renewed, 1000), AuthStep::Ready));
    let same = apply_refresh(pat, "A2".to_string(), "R2".to_string(), 5000);
    assert_eq!(same.auth, Auth::Bearer { token: "P".to_string() });
}
