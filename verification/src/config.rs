//! Connection config and the credentials it carries, with the `Authorization`
//! header and the REST / browse URLs derived from them.
use vstd::prelude::*;
use crate::encoding::{base64_of, encode_base64};
use crate::text::{owned, push_str, trim_end_char, trim_end_matches, trim_start_char, trim_start_matches};

verus! {

/// Every supported way to authenticate to Jira.
#[derive(Debug, PartialEq, Eq)]
pub enum Auth {
    /// Jira Cloud API token: `email` + token, sent as `Basic base64(email:token)`.
    Basic { email: String, token: String },
    /// Jira Server/DC username + password, sent as `Basic base64(user:pass)`.
    Password { username: String, password: String },
    /// Jira Server/DC Personal Access Token, sent as `Bearer <token>`.
    Bearer { token: String },
    /// Jira Cloud OAuth 2.0 (3LO). Calls route via api.atlassian.com/ex/jira/{cloud_id}.
    OAuth {
        access_token: String,
        refresh_token: String,
        /// Unix epoch seconds when the access token expires.
        expires_at: i64,
        /// The Atlassian cloud id of the selected site.
        cloud_id: String,
    },
    /// Escape hatch for SSO/proxy instances: a verbatim `Authorization` header.
    Raw { header: String },
}

impl Clone for Auth {
    fn clone(&self) -> (r: Self)
        ensures
            r == *self,
    {
        match self {
            Auth::Basic { email, token } => Auth::Basic { email: email.clone(), token: token.clone() },
            Auth::Password { username, password } => Auth::Password {
                username: username.clone(),
                password: password.clone(),
            },
            Auth::Bearer { token } => Auth::Bearer { token: token.clone() },
            Auth::OAuth { access_token, refresh_token, expires_at, cloud_id } => Auth::OAuth {
                access_token: access_token.clone(),
                refresh_token: refresh_token.clone(),
                expires_at: *expires_at,
                cloud_id: cloud_id.clone(),
            },
            Auth::Raw { header } => Auth::Raw { header: header.clone() },
        }
    }
}

#[derive(Debug)]
pub struct JiraConfig {
    /// e.g. `https://yourorg.atlassian.net` or `https://jira.company.com`.
    pub base_url: String,
    pub auth: Auth,
    /// REST API version — "2" by default.
    pub api_version: String,
}

impl Clone for JiraConfig {
    fn clone(&self) -> (r: Self)
        ensures
            r == *self,
    {
        JiraConfig {
            base_url: self.base_url.clone(),
            auth: self.auth.clone(),
            api_version: self.api_version.clone(),
        }
    }
}

/// Why a config could not be built from the environment.
#[derive(Debug, PartialEq, Eq)]
pub enum ConfigError {
    /// `LIENT_URL` is set but `LIENT_TOKEN` is not.
    MissingToken,
}

impl ConfigError {
    pub fn message(&self) -> (r: String)
        ensures
            r@ == "LIENT_URL set but LIENT_TOKEN missing"@,
    {
        owned("LIENT_URL set but LIENT_TOKEN missing")
    }
}

/// The default REST API version.
pub fn default_api() -> (r: String)
    ensures
        r@ == "2"@,
{
    owned("2")
}

/// `<user>:<secret>` as UTF-8, base64-encoded.
pub open spec fn basic_credentials(user: Seq<char>, secret: Seq<char>) -> Seq<char> {
    base64_of(vstd::utf8::encode_utf8(user + seq![':'] + secret), false)
}

/// The `Authorization` header value for `auth`.
pub open spec fn auth_header_of(auth: Auth) -> Seq<char> {
    match auth {
        Auth::Basic { email, token } => "Basic "@ + basic_credentials(email@, token@),
        Auth::Password { username, password } => "Basic "@ + basic_credentials(
            username@,
            password@,
        ),
        Auth::Bearer { token } => "Bearer "@ + token@,
        Auth::OAuth { access_token, .. } => "Bearer "@ + access_token@,
        Auth::Raw { header } => header@,
    }
}

/// Standard base64 of `input`, padded with `=`.
pub fn base64(input: &[u8]) -> (r: String)
    ensures
        r@ == base64_of(input@, false),
{
    encode_base64(input, false)
}

fn basic(user: &str, secret: &str) -> (r: String)
    ensures
        r@ == "Basic "@ + basic_credentials(user@, secret@),
{
    let mut cred = owned(user);
    push_str(&mut cred, ":");
    push_str(&mut cred, secret);
    proof {
        reveal_strlit(":");
        assert(":"@ =~= seq![':']);
        assert(cred@ =~= user@ + seq![':'] + secret@);
    }
    let mut r = owned("Basic ");
    push_str(&mut r, base64(cred.as_str().as_bytes()).as_str());
    r
}

impl JiraConfig {
    /// REST base: api.atlassian.com keyed by cloud id for OAuth, else the site
    /// URL without trailing slashes.
    pub open spec fn rest_base_of(&self) -> Seq<char> {
        match self.auth {
            Auth::OAuth { cloud_id, .. } => "https://api.atlassian.com/ex/jira/"@ + cloud_id@,
            _ => trim_end_char(self.base_url@, '/'),
        }
    }

    pub open spec fn api_url_of(&self, path: Seq<char>) -> Seq<char> {
        self.rest_base_of() + "/rest/api/"@ + self.api_version@ + "/"@ + trim_start_char(path, '/')
    }

    pub open spec fn servicedesk_url_of(&self, path: Seq<char>) -> Seq<char> {
        self.rest_base_of() + "/rest/servicedeskapi/"@ + trim_start_char(path, '/')
    }

    pub open spec fn browse_url_of(&self, key: Seq<char>) -> Seq<char> {
        trim_end_char(self.base_url@, '/') + "/browse/"@ + key
    }

    /// Config from the environment: `None` when `LIENT_URL` is unset; with it,
    /// `LIENT_TOKEN` is required, and a non-empty `LIENT_EMAIL` selects Cloud
    /// Basic auth, otherwise a Server PAT.
    pub fn from_env(url: Option<String>, email: Option<String>, token: Option<String>) -> (r:
        Option<Result<JiraConfig, ConfigError>>)
        ensures
            url is None <==> r is None,
            url is Some && token is None ==> r == Some(Err::<JiraConfig, ConfigError>(
                ConfigError::MissingToken,
            )),
            url is Some && token is Some ==> (r matches Some(Ok(cfg)) && cfg.base_url == url->0
                && cfg.api_version@ == "2"@ && cfg.auth == (if email is Some && email->0@.len()
                > 0 {
                Auth::Basic { email: email->0, token: token->0 }
            } else {
                Auth::Bearer { token: token->0 }
            })),
    {
        match url {
            None => None,
            Some(base_url) => match token {
                None => Some(Err(ConfigError::MissingToken)),
                Some(token) => {
                    let auth = match email {
                        Some(email) => {
                            if email.as_str().is_empty() {
                                Auth::Bearer { token }
                            } else {
                                Auth::Basic { email, token }
                            }
                        },
                        None => Auth::Bearer { token },
                    };
                    Some(Ok(JiraConfig { base_url, auth, api_version: default_api() }))
                },
            },
        }
    }

    /// The `Authorization` header value for this config.
    pub fn auth_header(&self) -> (r: String)
        ensures
            r@ == auth_header_of(self.auth),
    {
        match &self.auth {
            Auth::Basic { email, token } => basic(email.as_str(), token.as_str()),
            Auth::Password { username, password } => basic(username.as_str(), password.as_str()),
            Auth::Bearer { token } => {
                let mut r = owned("Bearer ");
                push_str(&mut r, token.as_str());
                r
            },
            Auth::OAuth { access_token, .. } => {
                let mut r = owned("Bearer ");
                push_str(&mut r, access_token.as_str());
                r
            },
            Auth::Raw { header } => header.clone(),
        }
    }

    /// REST base URL (see [`JiraConfig::rest_base_of`]).
    fn rest_base(&self) -> (r: String)
        ensures
            r@ == self.rest_base_of(),
    {
        match &self.auth {
            Auth::OAuth { cloud_id, .. } => {
                let mut r = owned("https://api.atlassian.com/ex/jira/");
                push_str(&mut r, cloud_id.as_str());
                r
            },
            _ => trim_end_matches(self.base_url.as_str(), '/'),
        }
    }

    /// `<rest_base>/rest/api/<ver>/<path>` with redundant slashes avoided.
    pub fn api_url(&self, path: &str) -> (r: String)
        ensures
            r@ == self.api_url_of(path@),
    {
        let mut r = self.rest_base();
        push_str(&mut r, "/rest/api/");
        push_str(&mut r, self.api_version.as_str());
        push_str(&mut r, "/");
        push_str(&mut r, trim_start_matches(path, '/').as_str());
        r
    }

    /// `<rest_base>/rest/servicedeskapi/<path>` — the Jira Service Management API.
    pub fn servicedesk_url(&self, path: &str) -> (r: String)
        ensures
            r@ == self.servicedesk_url_of(path@),
    {
        let mut r = self.rest_base();
        push_str(&mut r, "/rest/servicedeskapi/");
        push_str(&mut r, trim_start_matches(path, '/').as_str());
        r
    }

    /// `<base>/browse/<KEY>` — for "open in browser".
    pub fn browse_url(&self, key: &str) -> (r: String)
        ensures
            r@ == self.browse_url_of(key@),
    {
        let mut r = trim_end_matches(self.base_url.as_str(), '/');
        push_str(&mut r, "/browse/");
        push_str(&mut r, key);
        r
    }
}

/// URL building is slash-safe: a leading `/` on the path changes neither the
/// REST nor the service-desk URL, and a trailing `/` on the site URL changes
/// neither them nor the browse link.
pub proof fn law_urls_are_slash_safe(a: JiraConfig, b: JiraConfig, path: Seq<char>, key: Seq<char>)
    requires
        a.auth == b.auth,
        a.api_version == b.api_version,
        a.base_url@ == b.base_url@ + seq!['/'],
    ensures
        a.api_url_of(seq!['/'] + path) == a.api_url_of(path),
        a.servicedesk_url_of(seq!['/'] + path) == a.servicedesk_url_of(path),
        a.api_url_of(path) == b.api_url_of(path),
        a.servicedesk_url_of(path) == b.servicedesk_url_of(path),
        a.browse_url_of(key) == b.browse_url_of(key),
{
    assert((seq!['/'] + path).drop_first() =~= path);
    assert((b.base_url@ + seq!['/']).drop_last() =~= b.base_url@);
}

/// OAuth configs call the Atlassian API gateway keyed by the site's cloud id,
/// while the browse link always points at the site itself, whatever the
/// credentials.
pub proof fn law_oauth_routes_through_gateway(a: JiraConfig, b: JiraConfig, path: Seq<char>, key: Seq<char>)
    requires
        a.base_url == b.base_url,
    ensures
        a.browse_url_of(key) == b.browse_url_of(key),
        a.auth matches Auth::OAuth { cloud_id, .. } ==> a.api_url_of(path) == "https://api.atlassian.com/ex/jira/"@
            + cloud_id@ + "/rest/api/"@ + a.api_version@ + "/"@ + trim_start_char(path, '/'),
{
}

} // verus!
