//! OAuth 2.0 (3LO) "Sign in with Atlassian" for Jira Cloud: PKCE, the authorize
//! URL, reading the loopback redirect, and turning token answers into config.
use vstd::prelude::*;
use crate::config::{auth_header_of, Auth, JiraConfig};
use crate::encoding::{
    base64_of, encode_base64, from_utf8_lossy, lemma_percent_encode_plain, lemma_percent_roundtrip,
    percent_decode, percent_decode_bytes, percent_encode, percent_encode_bytes, plain_query_char,
    utf8_lossy,
};
use crate::json::Json;
use crate::text::{
    chars_eq, chars_of, decimal, joined, lemma_joined_without, lemma_split_at, lemma_split_joined, lemma_split_without,
    owned, push_decimal, push_str, second_word, second_word_of, slice_chars, split_chars, split_on,
    string_of, trim, trim_ws,
};
use vstd::utf8::{encode_utf8, encode_utf8_decode_utf8, encode_utf8_valid_utf8, valid_utf8};
use sha2::Digest;

verus! {

/// Percent encoding of the UTF-8 bytes of `s` (query value).
pub open spec fn enc_of(s: Seq<char>) -> Seq<char> {
    percent_encode(encode_utf8(s))
}

/// Percent decoding of `s` (`+` as space), read back as UTF-8.
pub open spec fn dec_of(s: Seq<char>) -> Seq<char> {
    utf8_lossy(percent_decode(encode_utf8(s)))
}

/// Percent-encodes a query value (everything but unreserved bytes).
pub fn enc(s: &str) -> (r: String)
    ensures
        r@ == enc_of(s@),
{
    percent_encode_bytes(s.as_bytes())
}

/// Percent-decodes a query value (`+` as space). It undoes [`enc`]: whatever
/// `enc` wrote decodes to the text it was given.
pub fn dec(s: &str) -> (r: String)
    ensures
        r@ == dec_of(s@),
        valid_utf8(percent_decode(encode_utf8(s@))) ==> encode_utf8(r@) == percent_decode(encode_utf8(s@)),
        forall|t: Seq<char>| #[trigger] enc_of(t) == s@ ==> r@ == t,
{
    let b = percent_decode_bytes(s.as_bytes());
    let r = from_utf8_lossy(b.as_slice());
    proof {
        assert forall|t: Seq<char>| #[trigger] enc_of(t) == s@ implies r@ == t by {
            lemma_percent_roundtrip(encode_utf8(t));
            encode_utf8_valid_utf8(t);
            encode_utf8_decode_utf8(t);
            encode_utf8_decode_utf8(r@);
        }
    }
    r
}

/// URL-safe base64 without padding (for PKCE).
pub fn base64url(input: &[u8]) -> (r: String)
    ensures
        r@ == base64_of(input@, true),
{
    encode_base64(input, true)
}

/// The Atlassian authorize URL the browser is sent to.
pub open spec fn authorize_url_of(client_id: Seq<char>, redirect_uri: Seq<char>, state: Seq<char>, challenge: Seq<char>) -> Seq<char> {
    "https://auth.atlassian.com/authorize"@ + "?audience=api.atlassian.com&client_id="@ + enc_of(client_id)
        + "&scope="@ + enc_of("read:jira-work write:jira-work read:jira-user offline_access"@)
        + "&redirect_uri="@ + enc_of(redirect_uri) + "&state="@ + enc_of(state)
        + "&response_type=code&prompt=consent&code_challenge="@ + enc_of(challenge)
        + "&code_challenge_method=S256"@
}

/// The query of a URL: the text after its first `?` (up to a second one).
pub open spec fn url_query(url: Seq<char>) -> Seq<char> {
    let segs = split_on(url, '?');
    if segs.len() > 1 {
        segs[1]
    } else {
        seq![]
    }
}

/// The raw (still percent-encoded) value of the first `key=value` pair of
/// `pairs` whose key is `key`.
pub open spec fn param_in(pairs: Seq<Seq<char>>, key: Seq<char>) -> Option<Seq<char>>
    decreases pairs.len(),
{
    if pairs.len() == 0 {
        None
    } else {
        let parts = split_on(pairs[0], '=');
        if parts.len() > 1 && parts[0] == key {
            Some(pairs[0].skip(key.len() + 1int))
        } else {
            param_in(pairs.skip(1), key)
        }
    }
}

/// The raw value of the query parameter `key` of a URL.
pub open spec fn query_param(url: Seq<char>, key: Seq<char>) -> Option<Seq<char>> {
    param_in(split_on(url_query(url), '&'), key)
}

/// Percent-decoding `v` gives the UTF-8 bytes of `t`.
pub open spec fn decodes_to(v: Seq<char>, t: Seq<char>) -> bool {
    percent_decode(encode_utf8(v)) == encode_utf8(t)
}

/// Text free of `&`, `=` and `?`.
pub open spec fn all_plain(s: Seq<char>) -> bool {
    forall|i: int| 0 <= i < s.len() ==> plain_query_char(#[trigger] s[i])
}

/// Text free of the pair separator `&` and of `?`.
pub open spec fn no_delimiter(s: Seq<char>) -> bool {
    forall|i: int| 0 <= i < s.len() ==> #[trigger] s[i] != '&' && s[i] != '?'
}

proof fn lemma_plain_add(a: Seq<char>, b: Seq<char>)
    requires
        all_plain(a),
        all_plain(b),
    ensures
        all_plain(a + b),
{
    assert forall|i: int| 0 <= i < (a + b).len() implies plain_query_char(#[trigger] (a + b)[i]) by {
        if i < a.len() {
            assert((a + b)[i] == a[i]);
        } else {
            assert((a + b)[i] == b[i - a.len()]);
        }
    }
}

/// An encoded value decodes back and breaks no query apart.
proof fn lemma_enc_value(t: Seq<char>)
    ensures
        all_plain(enc_of(t)),
        decodes_to(enc_of(t), t),
{
    lemma_percent_encode_plain(encode_utf8(t));
    lemma_percent_roundtrip(encode_utf8(t));
}

/// A pair `k=v` of plain texts splits at its `=` into key and value.
proof fn lemma_pair(k: Seq<char>, v: Seq<char>)
    requires
        all_plain(k),
        all_plain(v),
    ensures
        split_on(k + seq!['='] + v, '=') == seq![k, v],
        (k + seq!['='] + v).skip(k.len() + 1int) == v,
{
    lemma_split_at(k, v, '=');
    lemma_split_without(k, '=');
    lemma_split_without(v, '=');
    assert(seq![k] + seq![v] =~= seq![k, v]);
    assert((k + seq!['='] + v).skip(k.len() + 1int) =~= v);
}

/// The Atlassian authorize URL the browser is sent to.
pub fn authorize_url(client_id: &str, redirect_uri: &str, state: &str, challenge: &str) -> (r: String)
    ensures
        r@ == authorize_url_of(client_id@, redirect_uri@, state@, challenge@),
        query_param(r@, "client_id"@) matches Some(v) && decodes_to(v, client_id@),
        query_param(r@, "redirect_uri"@) matches Some(v) && decodes_to(v, redirect_uri@),
        query_param(r@, "state"@) matches Some(v) && decodes_to(v, state@),
        query_param(r@, "code_challenge"@) matches Some(v) && decodes_to(v, challenge@),
{
    proof {
        law_authorize_url_carries_its_arguments(client_id@, redirect_uri@, state@, challenge@);
    }
    let mut r = owned("https://auth.atlassian.com/authorize");
    push_str(&mut r, "?audience=api.atlassian.com&client_id=");
    push_str(&mut r, enc(client_id).as_str());
    push_str(&mut r, "&scope=");
    push_str(&mut r, enc("read:jira-work write:jira-work read:jira-user offline_access").as_str());
    push_str(&mut r, "&redirect_uri=");
    push_str(&mut r, enc(redirect_uri).as_str());
    push_str(&mut r, "&state=");
    push_str(&mut r, enc(state).as_str());
    push_str(&mut r, "&response_type=code&prompt=consent&code_challenge=");
    push_str(&mut r, enc(challenge).as_str());
    push_str(&mut r, "&code_challenge_method=S256");
    r
}

/// Joining one more piece onto a prefix of the pieces.
proof fn lemma_joined_take(s: Seq<Seq<char>>, sep: Seq<char>, k: int)
    requires
        1 <= k < s.len(),
    ensures
        joined(s.take(k + 1), sep) == joined(s.take(k), sep) + sep + s[k],
        joined(s.take(1), sep) == s[0],
{
    assert(s.take(k + 1).drop_last() =~= s.take(k));
}

/// Appending `&`, a key and a value to a query after a prefix.
proof fn lemma_next_pair(a: Seq<char>, j: Seq<char>, k: Seq<char>, e: Seq<char>)
    ensures
        (a + j) + (seq!['&'] + k) + e == a + (j + seq!['&'] + (k + e)),
{
    assert((a + j) + (seq!['&'] + k) + e =~= a + (j + seq!['&'] + (k + e)));
}

/// Appending `&` and a whole pair to a query after a prefix.
proof fn lemma_last_pair(a: Seq<char>, j: Seq<char>, p: Seq<char>)
    ensures
        (a + j) + (seq!['&'] + p) == a + (j + seq!['&'] + p),
{
    assert((a + j) + (seq!['&'] + p) =~= a + (j + seq!['&'] + p));
}

/// Appending two whole pairs, then a key and its value.
proof fn lemma_three_pairs(a: Seq<char>, j: Seq<char>, p: Seq<char>, q: Seq<char>, k: Seq<char>, e: Seq<char>)
    ensures
        (a + j) + (seq!['&'] + p + seq!['&'] + q + seq!['&'] + k) + e == a + (((j + seq!['&'] + p) + seq!['&'] + q)
            + seq!['&'] + (k + e)),
{
    assert((a + j) + (seq!['&'] + p + seq!['&'] + q + seq!['&'] + k) + e =~= a + (((j + seq!['&'] + p) + seq!['&'] + q)
        + seq!['&'] + (k + e)));
}

/// The `key=value` pairs of the authorize URL's query, in order.
spec fn authorize_pairs(client_id: Seq<char>, redirect_uri: Seq<char>, state: Seq<char>, challenge: Seq<char>) -> Seq<Seq<char>> {
    seq![
        "audience"@ + seq!['='] + "api.atlassian.com"@,
        "client_id"@ + seq!['='] + enc_of(client_id),
        "scope"@ + seq!['='] + enc_of("read:jira-work write:jira-work read:jira-user offline_access"@),
        "redirect_uri"@ + seq!['='] + enc_of(redirect_uri),
        "state"@ + seq!['='] + enc_of(state),
        "response_type"@ + seq!['='] + "code"@,
        "prompt"@ + seq!['='] + "consent"@,
        "code_challenge"@ + seq!['='] + enc_of(challenge),
        "code_challenge_method"@ + seq!['='] + "S256"@,
    ]
}

/// The authorize URL is its base, `?`, and its pairs joined by `&`.
proof fn lemma_authorize_url_shape(client_id: Seq<char>, redirect_uri: Seq<char>, state: Seq<char>, challenge: Seq<char>)
    ensures
        authorize_url_of(client_id, redirect_uri, state, challenge) == "https://auth.atlassian.com/authorize"@
            + seq!['?'] + joined(authorize_pairs(client_id, redirect_uri, state, challenge), seq!['&']),
{
    let scope = "read:jira-work write:jira-work read:jira-user offline_access"@;
    let e1 = enc_of(client_id);
    let e2 = enc_of(scope);
    let e3 = enc_of(redirect_uri);
    let e4 = enc_of(state);
    let e5 = enc_of(challenge);
    let base = "https://auth.atlassian.com/authorize"@;
    let a = base + seq!['?'];
    let ps = authorize_pairs(client_id, redirect_uri, state, challenge);
    reveal_strlit("?audience=api.atlassian.com&client_id=");
    reveal_strlit("&scope=");
    reveal_strlit("&redirect_uri=");
    reveal_strlit("&state=");
    reveal_strlit("&response_type=code&prompt=consent&code_challenge=");
    reveal_strlit("&code_challenge_method=S256");
    reveal_strlit("audience");
    reveal_strlit("api.atlassian.com");
    reveal_strlit("client_id");
    reveal_strlit("scope");
    reveal_strlit("redirect_uri");
    reveal_strlit("state");
    reveal_strlit("response_type");
    reveal_strlit("code");
    reveal_strlit("prompt");
    reveal_strlit("consent");
    reveal_strlit("code_challenge");
    reveal_strlit("code_challenge_method");
    reveal_strlit("S256");
    let k1 = "client_id"@ + seq!['='];
    let k2 = "scope"@ + seq!['='];
    let k3 = "redirect_uri"@ + seq!['='];
    let k4 = "state"@ + seq!['='];
    let k7 = "code_challenge"@ + seq!['='];
    assert("?audience=api.atlassian.com&client_id="@ =~= seq!['?'] + ps[0] + seq!['&'] + k1);
    assert("&scope="@ =~= seq!['&'] + k2);
    assert("&redirect_uri="@ =~= seq!['&'] + k3);
    assert("&state="@ =~= seq!['&'] + k4);
    assert("&response_type=code&prompt=consent&code_challenge="@ =~= seq!['&'] + ps[5] + seq!['&'] + ps[6]
        + seq!['&'] + k7);
    assert("&code_challenge_method=S256"@ =~= seq!['&'] + ps[8]);
    assert(ps[1] =~= k1 + e1);
    assert(ps[2] =~= k2 + e2);
    assert(ps[3] =~= k3 + e3);
    assert(ps[4] =~= k4 + e4);
    assert(ps[7] =~= k7 + e5);
    let j1 = ps[0];
    let j2 = j1 + seq!['&'] + ps[1];
    let j3 = j2 + seq!['&'] + ps[2];
    let j4 = j3 + seq!['&'] + ps[3];
    let j5 = j4 + seq!['&'] + ps[4];
    let j8 = ((j5 + seq!['&'] + ps[5]) + seq!['&'] + ps[6]) + seq!['&'] + ps[7];
    let j9 = j8 + seq!['&'] + ps[8];
    let u1 = base + "?audience=api.atlassian.com&client_id="@ + e1;
    assert(u1 =~= a + j2);
    let u2 = u1 + "&scope="@ + e2;
    lemma_next_pair(a, j2, k2, e2);
    assert(u2 == a + j3);
    let u3 = u2 + "&redirect_uri="@ + e3;
    lemma_next_pair(a, j3, k3, e3);
    assert(u3 == a + j4);
    let u4 = u3 + "&state="@ + e4;
    lemma_next_pair(a, j4, k4, e4);
    assert(u4 == a + j5);
    let u5 = u4 + "&response_type=code&prompt=consent&code_challenge="@ + e5;
    lemma_three_pairs(a, j5, ps[5], ps[6], k7, e5);
    assert(u5 == a + j8);
    let u6 = u5 + "&code_challenge_method=S256"@;
    lemma_last_pair(a, j8, ps[8]);
    assert(u6 == a + j9);
    assert(authorize_url_of(client_id, redirect_uri, state, challenge) == u6);
    lemma_joined_take(ps, seq!['&'], 1);
    lemma_joined_take(ps, seq!['&'], 2);
    lemma_joined_take(ps, seq!['&'], 3);
    lemma_joined_take(ps, seq!['&'], 4);
    lemma_joined_take(ps, seq!['&'], 5);
    lemma_joined_take(ps, seq!['&'], 6);
    lemma_joined_take(ps, seq!['&'], 7);
    lemma_joined_take(ps, seq!['&'], 8);
    assert(ps.take(9) =~= ps);
    assert(a + j9 =~= base + seq!['?'] + j9);
}

/// The authorize URL carries each argument in its query parameter: the
/// `client_id`, `redirect_uri`, `state` and `code_challenge` parameters
/// percent-decode to the arguments given, and `response_type` is `code`.
pub proof fn law_authorize_url_carries_its_arguments(
    client_id: Seq<char>,
    redirect_uri: Seq<char>,
    state: Seq<char>,
    challenge: Seq<char>,
)
    ensures
        query_param(authorize_url_of(client_id, redirect_uri, state, challenge), "client_id"@) matches Some(v)
            && decodes_to(v, client_id),
        query_param(authorize_url_of(client_id, redirect_uri, state, challenge), "redirect_uri"@) matches Some(v)
            && decodes_to(v, redirect_uri),
        query_param(authorize_url_of(client_id, redirect_uri, state, challenge), "state"@) matches Some(v)
            && decodes_to(v, state),
        query_param(authorize_url_of(client_id, redirect_uri, state, challenge), "code_challenge"@) matches Some(v)
            && decodes_to(v, challenge),
        query_param(authorize_url_of(client_id, redirect_uri, state, challenge), "response_type"@) == Some("code"@),
{
    let scope = "read:jira-work write:jira-work read:jira-user offline_access"@;
    lemma_enc_value(client_id);
    lemma_enc_value(redirect_uri);
    lemma_enc_value(state);
    lemma_enc_value(challenge);
    lemma_enc_value(scope);
    reveal_strlit("https://auth.atlassian.com/authorize");
    reveal_strlit("audience");
    reveal_strlit("api.atlassian.com");
    reveal_strlit("client_id");
    reveal_strlit("scope");
    reveal_strlit("redirect_uri");
    reveal_strlit("state");
    reveal_strlit("response_type");
    reveal_strlit("code");
    reveal_strlit("prompt");
    reveal_strlit("consent");
    reveal_strlit("code_challenge");
    reveal_strlit("code_challenge_method");
    reveal_strlit("S256");
    let ks: Seq<Seq<char>> = seq![
        "audience"@, "client_id"@, "scope"@, "redirect_uri"@, "state"@, "response_type"@, "prompt"@,
        "code_challenge"@, "code_challenge_method"@,
    ];
    let vs: Seq<Seq<char>> = seq![
        "api.atlassian.com"@, enc_of(client_id), enc_of(scope), enc_of(redirect_uri), enc_of(state), "code"@,
        "consent"@, enc_of(challenge), "S256"@,
    ];
    let pairs = authorize_pairs(client_id, redirect_uri, state, challenge);
    assert forall|k: int| 0 <= k < 9 implies all_plain(#[trigger] ks[k]) && all_plain(vs[k]) by {
        assert forall|i: int| 0 <= i < ks[k].len() implies plain_query_char(#[trigger] ks[k][i]) by {}
        if k == 0 || k == 5 || k == 6 || k == 8 {
            assert forall|i: int| 0 <= i < vs[k].len() implies plain_query_char(#[trigger] vs[k][i]) by {}
        }
    }
    assert forall|k: int| 0 <= k < 9 implies #[trigger] pairs[k] == ks[k] + seq!['='] + vs[k] by {}
    assert forall|k: int| 0 <= k < 9 implies split_on(#[trigger] pairs[k], '=') == seq![ks[k], vs[k]]
        && pairs[k].skip(ks[k].len() + 1int) == vs[k] && no_delimiter(pairs[k]) by {
        lemma_pair(ks[k], vs[k]);
        assert forall|i: int| 0 <= i < pairs[k].len() implies #[trigger] pairs[k][i] != '&' && pairs[k][i] != '?' by {
            if i < ks[k].len() {
                assert(pairs[k][i] == ks[k][i]);
                assert(plain_query_char(ks[k][i]));
            } else if i > ks[k].len() {
                assert(pairs[k][i] == vs[k][i - ks[k].len() - 1]);
                assert(plain_query_char(vs[k][i - ks[k].len() - 1]));
            }
        }
    }
    let q = joined(pairs, seq!['&']);
    assert forall|k: int, i: int| 0 <= k < pairs.len() && 0 <= i < pairs[k].len() implies #[trigger] pairs[k][i] != '&'
        && pairs[k][i] != '?' by {
        assert(no_delimiter(pairs[k]));
    }
    lemma_split_joined(pairs, '&');
    lemma_joined_without(pairs, seq!['&'], '?');
    let base = "https://auth.atlassian.com/authorize"@;
    assert forall|i: int| 0 <= i < base.len() implies base[i] != '?' by {}
    lemma_split_without(base, '?');
    lemma_split_without(q, '?');
    lemma_split_at(base, q, '?');
    lemma_authorize_url_shape(client_id, redirect_uri, state, challenge);
    let url = authorize_url_of(client_id, redirect_uri, state, challenge);
    assert(url_query(url) == q);
    assert(split_on(url_query(url), '&') == pairs);
    assert("scope"@[1] != "state"@[1]);
    reveal_with_fuel(param_in, 10);
}

/// Why signing in failed.
#[derive(Debug, PartialEq, Eq)]
pub enum OAuthError {
    /// No OAuth client id was given.
    MissingClientId,
    /// The redirect carried `error=<reason>`.
    Denied(String),
    /// The redirect carried no authorization code.
    NoCode,
    /// The redirect's `state` is not the one sent (possible CSRF).
    StateMismatch,
    /// The account has no accessible Jira site.
    NoSites,
    /// The operating system's random source failed.
    Random,
}

impl OAuthError {
    pub open spec fn message_of(&self) -> Seq<char> {
        match *self {
            OAuthError::MissingClientId => "OAuth client id is required (register an app at developer.atlassian.com)"@,
            OAuthError::Denied(m) => "Atlassian returned an error: "@ + m@,
            OAuthError::NoCode => "no authorization code in the redirect"@,
            OAuthError::StateMismatch => "OAuth state mismatch (possible CSRF) — aborting"@,
            OAuthError::NoSites => "your Atlassian account has no accessible Jira sites"@,
            OAuthError::Random => "the OS random source failed"@,
        }
    }

    pub fn message(&self) -> (r: String)
        ensures
            r@ == self.message_of(),
    {
        match self {
            OAuthError::MissingClientId => owned("OAuth client id is required (register an app at developer.atlassian.com)"),
            OAuthError::Denied(m) => {
                let mut r = owned("Atlassian returned an error: ");
                push_str(&mut r, m.as_str());
                r
            },
            OAuthError::NoCode => owned("no authorization code in the redirect"),
            OAuthError::StateMismatch => owned("OAuth state mismatch (possible CSRF) — aborting"),
            OAuthError::NoSites => owned("your Atlassian account has no accessible Jira sites"),
            OAuthError::Random => owned("the OS random source failed"),
        }
    }
}

/// `s.lines().next()`, or empty: the text before the first `\n`, without the
/// `\r` of a `\r\n` ending.
pub open spec fn first_line(s: Seq<char>) -> Seq<char> {
    let segs = split_on(s, '\n');
    if segs.len() > 1 && segs[0].len() > 0 && segs[0].last() == '\r' {
        segs[0].drop_last()
    } else {
        segs[0]
    }
}

/// The query of the request target on the first line: the text between the
/// first and the second `?` of the second word.
pub open spec fn query_of(req: Seq<char>) -> Seq<char> {
    let segs = split_on(second_word(first_line(req)), '?');
    if segs.len() > 1 {
        segs[1]
    } else {
        seq![]
    }
}

/// Reads `key=value` pairs in order: `code` and `state` are kept (decoded, the
/// last one wins); the first `error` ends the reading with its decoded value;
/// anything else is skipped.
pub open spec fn read_params(kvs: Seq<Seq<char>>, code: Seq<char>, state: Seq<char>) -> Result<(Seq<char>, Seq<char>), Seq<char>>
    decreases kvs.len(),
{
    if kvs.len() == 0 {
        Ok((code, state))
    } else {
        let kv = kvs[0];
        let parts = split_on(kv, '=');
        let k = parts[0];
        if parts.len() > 1 {
            let v = kv.skip(k.len() + 1 as int);
            if k == "code"@ {
                read_params(kvs.skip(1), dec_of(v), state)
            } else if k == "state"@ {
                read_params(kvs.skip(1), code, dec_of(v))
            } else if k == "error"@ {
                Err(dec_of(v))
            } else {
                read_params(kvs.skip(1), code, state)
            }
        } else {
            read_params(kvs.skip(1), code, state)
        }
    }
}

/// What the redirect request carries: `Err(reason)` for an error parameter,
/// else the decoded code and state.
pub open spec fn callback_params(req: Seq<char>) -> Result<(Seq<char>, Seq<char>), Seq<char>> {
    read_params(split_on(query_of(req), '&'), seq![], seq![])
}

/// The first piece of `split_on` is a prefix, shorter than `s` when `c` occurs.
pub proof fn lemma_split_first(s: Seq<char>, c: char)
    ensures
        split_on(s, c).len() >= 1,
        split_on(s, c)[0].len() <= s.len(),
        split_on(s, c).len() == 1 ==> split_on(s, c)[0] == s,
        split_on(s, c).len() > 1 ==> split_on(s, c)[0].len() < s.len(),
    decreases s.len(),
{
    if s.len() > 0 {
        lemma_split_first(s.drop_last(), c);
    } else {
        assert(s =~= Seq::<char>::empty());
    }
}

/// The text of a character vector, percent-decoded.
fn dec_chars(v: &Vec<char>) -> (r: String)
    ensures
        r@ == dec_of(v@),
{
    let s = string_of(v, 0, v.len());
    assert(v@.subrange(0, v@.len() as int) == v@);
    dec(s.as_str())
}

/// Parses `code` and `state` from the loopback request's first line.
pub fn parse_callback(req: &str) -> (r: Result<(String, String), OAuthError>)
    ensures
        callback_params(req@) matches Err(m) ==> (r matches Err(OAuthError::Denied(x)) && x@ == m),
        callback_params(req@) matches Ok((c, s)) ==> (if c.len() == 0 {
            r == Err::<(String, String), OAuthError>(OAuthError::NoCode)
        } else {
            r matches Ok((a, b)) && a@ == c && b@ == s
        }),
{
    let v = chars_of(req);
    let lines = split_chars(&v, '\n');
    proof {
        lemma_split_first(v@, '\n');
    }
    let l0 = &lines[0];
    assert(l0@ == lines.deep_view()[0]);
    let line = if lines.len() > 1 && l0.len() > 0 && l0[l0.len() - 1] == '\r' {
        slice_chars(l0, 0, l0.len() - 1)
    } else {
        slice_chars(l0, 0, l0.len())
    };
    assert(line@ =~= first_line(v@));
    let path = second_word_of(&line);
    let pieces = split_chars(&path, '?');
    proof {
        lemma_split_first(path@, '?');
    }
    let query = if pieces.len() > 1 {
        slice_chars(&pieces[1], 0, pieces[1].len())
    } else {
        Vec::new()
    };
    assert(query@ =~= query_of(req@));
    let kvs = split_chars(&query, '&');
    let ghost all = kvs.deep_view();
    let mut code = String::new();
    let mut state = String::new();
    let code_key = chars_of("code");
    let state_key = chars_of("state");
    let error_key = chars_of("error");
    let mut i: usize = 0;
    assert(all.skip(0) == all);
    while i < kvs.len()
        invariant
            i <= kvs@.len(),
            all == kvs.deep_view(),
            all == split_on(query_of(req@), '&'),
            code_key@ == "code"@,
            state_key@ == "state"@,
            error_key@ == "error"@,
            read_params(all, seq![], seq![]) == read_params(all.skip(i as int), code@, state@),
        decreases kvs.len() - i,
    {
        let kv = &kvs[i];
        assert(kv@ == all[i as int]);
        assert(all.skip(i as int)[0] == all[i as int]);
        assert(all.skip(i as int).skip(1) == all.skip(i + 1));
        let parts = split_chars(kv, '=');
        proof {
            lemma_split_first(kv@, '=');
        }
        let k = &parts[0];
        assert(k.deep_view() =~= k@);
        assert(k@ == parts.deep_view()[0]);
        if parts.len() > 1 {
            assert(k@.len() < kv@.len());
            let klen: usize = k.len();
            let kvlen: usize = kv.len();
            assert(klen < kvlen);
            let value = slice_chars(kv, klen + 1, kvlen);
            assert(value@ =~= kv@.skip(k@.len() + 1 as int));
            if chars_eq(k, &code_key) {
                code = dec_chars(&value);
            } else if chars_eq(k, &state_key) {
                state = dec_chars(&value);
            } else if chars_eq(k, &error_key) {
                return Err(OAuthError::Denied(dec_chars(&value)));
            }
        }
        i = i + 1;
    }
    assert(all.skip(kvs@.len() as int) =~= Seq::<Seq<char>>::empty());
    if code.as_str().is_empty() {
        Err(OAuthError::NoCode)
    } else {
        Ok((code, state))
    }
}

/// Length of base64 output: four characters per started group when padded;
/// without padding, a short group of one or two bytes takes two or three.
pub proof fn lemma_base64_len(b: Seq<u8>)
    ensures
        base64_of(b, false).len() == 4 * ((b.len() + 2) / 3),
        base64_of(b, true).len() == (4 * b.len() + 2) / 3,
    decreases b.len(),
{
    if b.len() > 3 {
        lemma_base64_len(b.skip(3));
    }
}

/// The loopback redirect URI for `port`.
pub open spec fn redirect_uri_of(port: u16) -> Seq<char> {
    "http://localhost:"@ + decimal(port as nat) + "/callback"@
}

pub fn redirect_uri(port: u16) -> (r: String)
    ensures
        r@ == redirect_uri_of(port),
{
    let mut r = owned("http://localhost:");
    push_decimal(&mut r, port as u128);
    push_str(&mut r, "/callback");
    r
}

/// A client id must not be blank.
pub fn require_client_id(client_id: &str) -> (r: Result<(), OAuthError>)
    ensures
        r is Ok <==> trim_ws(client_id@).len() > 0,
        r is Err ==> r == Err::<(), OAuthError>(OAuthError::MissingClientId),
{
    if trim(client_id).as_str().is_empty() {
        Err(OAuthError::MissingClientId)
    } else {
        Ok(())
    }
}

/// Accepts a parsed redirect only when its state is the one that was sent;
/// returns the code.
pub fn accept_callback(parsed: Result<(String, String), OAuthError>, expected_state: &str) -> (r: Result<String, OAuthError>)
    ensures
        parsed is Err ==> r == match parsed {
            Err(e) => Err::<String, OAuthError>(e),
            Ok(_) => r,
        },
        parsed matches Ok((c, st)) ==> (if st@ == expected_state@ {
            r == Ok::<String, OAuthError>(c)
        } else {
            r == Err::<String, OAuthError>(OAuthError::StateMismatch)
        }),
{
    match parsed {
        Err(e) => Err(e),
        Ok((code, state)) => {
            if crate::text::str_eq(state.as_str(), expected_state) {
                Ok(code)
            } else {
                Err(OAuthError::StateMismatch)
            }
        },
    }
}

/// What the token endpoint answers.
#[derive(Debug)]
pub struct TokenResponse {
    pub access_token: String,
    pub refresh_token: String,
    pub expires_in: i64,
}

/// An Atlassian site the token can reach.
#[derive(Debug)]
pub struct Resource {
    pub id: String,
    pub url: String,
}

/// The first accessible site as (cloud id, site URL).
pub fn first_resource(list: Vec<Resource>) -> (r: Result<(String, String), OAuthError>)
    ensures
        list@.len() == 0 ==> r == Err::<(String, String), OAuthError>(OAuthError::NoSites),
        list@.len() > 0 ==> r == Ok::<(String, String), OAuthError>((list@[0].id, list@[0].url)),
{
    let mut list = list;
    if list.len() == 0 {
        Err(OAuthError::NoSites)
    } else {
        let first = list.swap_remove(0);
        Ok((first.id, first.url))
    }
}

/// (access token, refresh token, expiry) after a refresh: the old refresh token
/// is kept when the answer carries none.
pub fn refreshed(old_refresh: &str, t: TokenResponse, now: i64) -> (r: (String, String, i64))
    requires
        i64::MIN <= now + t.expires_in <= i64::MAX,
    ensures
        r.0 == t.access_token,
        r.1@ == (if t.refresh_token@.len() == 0 { old_refresh@ } else { t.refresh_token@ }),
        r.2 == now + t.expires_in,
{
    let refresh = if t.refresh_token.as_str().is_empty() { owned(old_refresh) } else { t.refresh_token };
    (t.access_token, refresh, now + t.expires_in)
}

/// Seconds before expiry at which an OAuth access token is already renewed,
/// so that a request does not go out with a token about to lapse.
pub const REFRESH_MARGIN: i64 = 60;

/// What a request needs first: nothing, or a fresh access token for this
/// refresh token.
pub enum AuthStep {
    Ready,
    Refresh { refresh_token: String },
}

/// An OAuth token is renewed when it expires within the margin and there is a
/// refresh token to renew it with; other credentials never are.
pub open spec fn needs_refresh(auth: Auth, now: i64) -> bool {
    match auth {
        Auth::OAuth { refresh_token, expires_at, .. } => expires_at <= now + REFRESH_MARGIN
            && refresh_token@.len() > 0,
        _ => false,
    }
}

/// Decides, before a request, whether the access token must be refreshed.
pub fn auth_step(cfg: &JiraConfig, now: i64) -> (r: AuthStep)
    ensures
        needs_refresh(cfg.auth, now) ==> (r matches AuthStep::Refresh { refresh_token: t } && cfg.auth
            matches Auth::OAuth { refresh_token, .. } && t@ == refresh_token@),
        !needs_refresh(cfg.auth, now) ==> r is Ready,
{
    match &cfg.auth {
        Auth::OAuth { refresh_token, expires_at, .. } => {
            if (*expires_at as i128) <= (now as i128) + (REFRESH_MARGIN as i128) && !refresh_token.as_str().is_empty() {
                AuthStep::Refresh { refresh_token: owned(refresh_token.as_str()) }
            } else {
                AuthStep::Ready
            }
        },
        _ => AuthStep::Ready,
    }
}

/// The config after a refresh answered (access token, refresh token,
/// expiry): an OAuth config takes the new tokens and expiry and keeps its
/// site, cloud id and API version; other configs are left as they are.
pub fn apply_refresh(cfg: JiraConfig, access_token: String, refresh_token: String, expires_at: i64) -> (r: JiraConfig)
    ensures
        r.base_url == cfg.base_url,
        r.api_version == cfg.api_version,
        cfg.auth matches Auth::OAuth { cloud_id, .. } ==> r.auth == (Auth::OAuth {
            access_token,
            refresh_token,
            expires_at,
            cloud_id,
        }),
        !(cfg.auth is OAuth) ==> r.auth == cfg.auth,
{
    let JiraConfig { base_url, auth, api_version } = cfg;
    let auth = match auth {
        Auth::OAuth { cloud_id, .. } => Auth::OAuth { access_token, refresh_token, expires_at, cloud_id },
        other => other,
    };
    JiraConfig { base_url, auth, api_version }
}

/// After a refresh, requests carry the new access token, and a token that is
/// now good for longer than the margin is not refreshed again.
pub proof fn law_refresh_renews_the_header(
    cfg: JiraConfig,
    r: JiraConfig,
    access_token: String,
    refresh_token: String,
    expires_at: i64,
    now: i64,
)
    requires
        cfg.auth is OAuth,
        r.base_url == cfg.base_url,
        r.api_version == cfg.api_version,
        r.auth == (Auth::OAuth { access_token, refresh_token, expires_at, cloud_id: cfg.auth->cloud_id }),
    ensures
        auth_header_of(r.auth) == "Bearer "@ + access_token@,
        expires_at > now + REFRESH_MARGIN ==> !needs_refresh(r.auth, now),
        r.api_url_of(seq![]) == cfg.api_url_of(seq![]),
{
}

/// The OAuth config for a signed-in site (REST API v3).
pub fn signed_in_config(t: TokenResponse, cloud_id: String, site: String, now: i64) -> (r: JiraConfig)
    requires
        i64::MIN <= now + t.expires_in <= i64::MAX,
    ensures
        r.base_url == site,
        r.api_version@ == "3"@,
        r.auth == (Auth::OAuth {
            access_token: t.access_token,
            refresh_token: t.refresh_token,
            expires_at: (now + t.expires_in) as i64,
            cloud_id,
        }),
{
    JiraConfig {
        base_url: site,
        auth: Auth::OAuth {
            access_token: t.access_token,
            refresh_token: t.refresh_token,
            expires_at: now + t.expires_in,
            cloud_id,
        },
        api_version: owned("3"),
    }
}

fn entry(key: &str, value: Json) -> (r: (String, Json))
    ensures
        r.0@ == key@,
        r.1 == value,
{
    (owned(key), value)
}

/// Body of the refresh-token request.
pub fn refresh_body(client_id: &str, refresh_token: &str) -> (r: Json)
    ensures
        r matches Json::Object(e) && e@.len() == 3
            && e@[0].0@ == "grant_type"@ && e@[0].1.str_of() == Some("refresh_token"@)
            && e@[1].0@ == "client_id"@ && e@[1].1.str_of() == Some(client_id@)
            && e@[2].0@ == "refresh_token"@ && e@[2].1.str_of() == Some(refresh_token@),
{
    Json::Object(vec![
        entry("grant_type", Json::string("refresh_token")),
        entry("client_id", Json::string(client_id)),
        entry("refresh_token", Json::string(refresh_token)),
    ])
}

/// Body of the authorization-code exchange; the secret is sent only when given.
pub fn exchange_body(client_id: &str, secret: Option<&str>, code: &str, redirect_uri: &str, verifier: &str) -> (r: Json)
    ensures
        r matches Json::Object(e) && e@.len() == (if secret is Some { 6int } else { 5int })
            && e@[0].0@ == "grant_type"@ && e@[0].1.str_of() == Some("authorization_code"@)
            && e@[1].0@ == "client_id"@ && e@[1].1.str_of() == Some(client_id@)
            && e@[2].0@ == "code"@ && e@[2].1.str_of() == Some(code@)
            && e@[3].0@ == "redirect_uri"@ && e@[3].1.str_of() == Some(redirect_uri@)
            && e@[4].0@ == "code_verifier"@ && e@[4].1.str_of() == Some(verifier@)
            && (secret matches Some(sec) ==> e@[5].0@ == "client_secret"@ && e@[5].1.str_of() == Some(sec@)),
{
    let mut e = vec![
        entry("grant_type", Json::string("authorization_code")),
        entry("client_id", Json::string(client_id)),
        entry("code", Json::string(code)),
        entry("redirect_uri", Json::string(redirect_uri)),
        entry("code_verifier", Json::string(verifier)),
    ];
    if let Some(sec) = secret {
        e.push(entry("client_secret", Json::string(sec)));
    }
    Json::Object(e)
}

/// `SystemTime::now().duration_since(UNIX_EPOCH)` in whole seconds; `None`
/// when the clock reads before the epoch. Nothing is stated of the reading.
#[verifier::external_body]
fn since_epoch() -> (r: Option<u64>) {
    match std::time::SystemTime::now().duration_since(std::time::UNIX_EPOCH) {
        Ok(d) => Some(d.as_secs()),
        Err(_) => None,
    }
}

/// Epoch seconds from a clock reading: 0 before the epoch, the seconds
/// otherwise (a reading past `i64::MAX` seconds stays at `i64::MAX`).
pub fn epoch_secs_from(since: Option<u64>) -> (r: i64)
    ensures
        match since {
            Some(s) => r == (if s <= i64::MAX { s as int } else { i64::MAX as int }),
            None => r == 0,
        },
        r >= 0,
{
    match since {
        Some(s) => if s <= i64::MAX as u64 {
            s as i64
        } else {
            i64::MAX
        },
        None => 0,
    }
}

/// Seconds since the Unix epoch, never negative (for the client's expiry
/// check).
pub fn epoch_secs() -> (r: i64)
    ensures
        r >= 0,
{
    epoch_secs_from(since_epoch())
}

/// `getrandom::getrandom` into a fresh buffer of `n` bytes; `None` when the OS
/// source fails. An empty buffer is never handed to the OS source, so it
/// always succeeds. Nothing is stated of the bytes themselves, nor when a
/// non-empty fill fails.
#[verifier::external_body]
fn random_bytes(n: usize) -> (r: Option<Vec<u8>>)
    ensures
        r matches Some(v) ==> v@.len() == n,
        n == 0 ==> r is Some,
{
    let mut raw = vec![0u8; n];
    match getrandom::getrandom(&mut raw) {
        Ok(()) => Some(raw),
        Err(_) => None,
    }
}

/// The SHA-256 digest of a byte string.
pub uninterp spec fn sha256_of(data: Seq<u8>) -> Seq<u8>;

/// `sha2::Sha256::digest`: the 32-byte SHA-256 digest of `data`.
#[verifier::external_body]
fn sha256(data: &[u8]) -> (r: Vec<u8>)
    ensures
        r@ == sha256_of(data@),
        r@.len() == 32,
{
    sha2::Sha256::digest(data).to_vec()
}

/// A random URL-safe token carrying `bytes` bytes of entropy; `None` when the
/// OS random source fails, which it cannot for a token of no bytes (the empty
/// token).
pub fn rand_token(bytes: usize) -> (r: Option<String>)
    ensures
        r matches Some(t) ==> (exists|raw: Seq<u8>| raw.len() == bytes && t@ == #[trigger] base64_of(raw, true)),
        r matches Some(t) ==> t@.len() == (4 * bytes + 2) / 3,
        bytes == 0 ==> (r matches Some(t) && t@.len() == 0),
{
    match random_bytes(bytes) {
        Some(raw) => {
            let t = base64url(raw.as_slice());
            proof {
                lemma_base64_len(raw@);
            }
            Some(t)
        },
        None => None,
    }
}

/// The PKCE challenge for a verifier: base64url(SHA-256(verifier)).
pub open spec fn challenge_of(verifier: Seq<char>) -> Seq<char> {
    base64_of(sha256_of(encode_utf8(verifier)), true)
}

/// The PKCE challenge of `verifier` (S256).
pub fn pkce_challenge(verifier: &str) -> (r: String)
    ensures
        r@ == challenge_of(verifier@),
        r@.len() == 43,
{
    let digest = sha256(verifier.as_bytes());
    proof {
        lemma_base64_len(digest@);
    }
    base64url(digest.as_slice())
}

/// (code_verifier, code_challenge) for PKCE S256: a 43-character random
/// verifier (32 bytes of entropy) and its challenge. `None` when the OS random
/// source fails.
pub fn pkce_pair() -> (r: Option<(String, String)>)
    ensures
        r matches Some((v, c)) ==> v@.len() == 43 && c@.len() == 43 && c@ == challenge_of(v@)
            && (exists|raw: Seq<u8>| raw.len() == 32 && v@ == #[trigger] base64_of(raw, true)),
{
    match rand_token(32) {
        Some(verifier) => {
            let challenge = pkce_challenge(verifier.as_str());
            Some((verifier, challenge))
        },
        None => None,
    }
}

} // verus!
