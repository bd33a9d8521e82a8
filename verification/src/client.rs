//! The Jira REST client, as requests to send and answers to read: which URL,
//! query, headers and JSON body each call uses, and what is made of the reply.
//! The transport itself (HTTP) is the caller's.
use vstd::prelude::*;
use crate::api::JiraError;
use crate::config::{auth_header_of, Auth, JiraConfig};
use crate::json::{
    entries_view, find_entry, lemma_with_entry_view, merge_view, set_entry, Json, JsonView,
};
use crate::model::{
    keys_ascending, keys_unique, key_less, lemma_ascending_keys_unique, CreateMeta, CreateOption,
    CreateOptionView, CreateProjectView, TransitionField, TransitionFieldView,
};
use crate::text::{chars_of, decimal, owned, push_decimal, push_str, str_eq, string_of};

verus! {

/// JQL for "my open work, freshest first".
pub fn my_issues_jql() -> (r: String)
    ensures
        r@ == "assignee = currentUser() AND statusCategory != Done ORDER BY updated DESC"@,
{
    owned("assignee = currentUser() AND statusCategory != Done ORDER BY updated DESC")
}

/// Fields asked for in lists.
pub open spec fn list_fields() -> Seq<char> {
    "summary,status,assignee,priority,issuetype,labels,updated,duedate"@
}

/// Fields asked for in an issue's detail.
pub open spec fn detail_fields() -> Seq<char> {
    "summary,status,assignee,reporter,priority,issuetype,labels,updated,created,duedate,description,comment"@
}

/// JSON for one transition field given the user's choice: `{"id": value}` for a
/// pick-list (value is an allowed value's id), the raw text otherwise; array
/// fields wrap it in a one-element list.
pub open spec fn transition_field_view(f: TransitionFieldView, value: Seq<char>) -> JsonView {
    let inner = if f.allowed_values.len() > 0 {
        JsonView::Object(seq![("id"@, JsonView::Str(value))])
    } else {
        JsonView::Str(value)
    };
    if f.schema.type_ == "array"@ {
        JsonView::Array(seq![inner])
    } else {
        inner
    }
}

/// Builds the JSON for one transition field.
pub fn transition_field_json(field: &TransitionField, value: &str) -> (r: Json)
    ensures
        r.view_of() == transition_field_view(field.deep_view(), value@),
{
    let inner = if field.has_options() {
        let o = Json::Object(vec![(owned("id"), Json::string(value))]);
        assert(o.view_of() == JsonView::Object(seq![("id"@, JsonView::Str(value@))])) by {
            if let Json::Object(e) = o {
                assert(e@[0].1.view_of() == JsonView::Str(value@));
            }
            assert(o.view_of()->Object_0 =~= seq![("id"@, JsonView::Str(value@))]);
        }
        o
    } else {
        Json::string(value)
    };
    if field.is_array() {
        let ghost iv = inner.view_of();
        let a = Json::Array(vec![inner]);
        assert(a.view_of()->Array_0 =~= seq![iv]);
        a
    } else {
        inner
    }
}

/// HTTP method of a request.
#[derive(Debug, PartialEq, Eq, Structural, Clone, Copy)]
pub enum Method {
    Get,
    Post,
    Put,
}

/// A request to send: method, URL, headers, query parameters and JSON body.
#[derive(Debug)]
pub struct HttpRequest {
    pub method: Method,
    pub url: String,
    pub headers: Vec<(String, String)>,
    pub query: Vec<(String, String)>,
    pub body: Option<Json>,
}

/// The headers every request carries: auth and JSON accept, plus a JSON
/// content type when there is a body.
pub open spec fn headers_for(cfg: JiraConfig, json_body: bool) -> Seq<(Seq<char>, Seq<char>)> {
    let base = seq![("Authorization"@, auth_header_of(cfg.auth)), ("Accept"@, "application/json"@)];
    if json_body {
        base.push(("Content-Type"@, "application/json"@))
    } else {
        base
    }
}

/// Whether `r` is a `method` request to `url` with the standard headers, the
/// given query, and (for POST/PUT) a body.
pub open spec fn request_is(r: HttpRequest, cfg: JiraConfig, method: Method, url: Seq<char>, query: Seq<(Seq<char>, Seq<char>)>) -> bool {
    &&& r.method == method
    &&& r.url@ == url
    &&& r.headers.deep_view() == headers_for(cfg, method != Method::Get)
    &&& r.query.deep_view() == query
    &&& (method == Method::Get <==> r.body is None)
}

/// The body of a request, as a view.
pub open spec fn body_of(r: HttpRequest) -> JsonView {
    match r.body {
        Some(b) => b.view_of(),
        None => JsonView::Null,
    }
}

/// `{"k": v}` with one entry.
pub open spec fn single(k: Seq<char>, v: JsonView) -> JsonView {
    JsonView::Object(seq![(k, v)])
}

fn pair(k: &str, v: &str) -> (r: (String, String))
    ensures
        r.0@ == k@,
        r.1@ == v@,
{
    (owned(k), owned(v))
}

/// A one-entry JSON object.
fn single_entry(k: &str, v: Json) -> (r: Json)
    ensures
        r.view_of() == single(k@, v.view_of()),
{
    let ghost vv = v.view_of();
    let o = Json::Object(vec![(owned(k), v)]);
    assert(o.view_of()->Object_0 =~= seq![(k@, vv)]);
    o
}

/// Plans Jira REST calls for one connection config.
pub struct JiraClient {
    cfg: JiraConfig,
}

impl JiraClient {
    pub closed spec fn cfg(&self) -> JiraConfig {
        self.cfg
    }

    pub fn new(cfg: JiraConfig) -> (r: Self)
        ensures
            r.cfg() == cfg,
    {
        JiraClient { cfg }
    }

    pub fn config(&self) -> (r: &JiraConfig)
        ensures
            *r == self.cfg(),
    {
        &self.cfg
    }

    fn request(&self, method: Method, url: String, query: Vec<(String, String)>, body: Option<Json>) -> (r: HttpRequest)
        requires
            method == Method::Get <==> body is None,
        ensures
            request_is(r, self.cfg(), method, url@, query.deep_view()),
            r.body == body,
    {
        let h0 = (owned("Authorization"), self.cfg.auth_header());
        let h1 = pair("Accept", "application/json");
        let ghost v0 = h0.deep_view();
        let ghost v1 = h1.deep_view();
        let mut headers = vec![h0, h1];
        assert(headers.deep_view() =~= seq![v0, v1]);
        if method != Method::Get {
            let h2 = pair("Content-Type", "application/json");
            let ghost v2 = h2.deep_view();
            headers.push(h2);
            assert(headers.deep_view() =~= seq![v0, v1, v2]);
        }
        assert(headers.deep_view() =~= headers_for(self.cfg(), method != Method::Get));
        HttpRequest { method, url, headers, query, body }
    }

    /// `api_url("issue/<key><suffix>")`.
    fn issue_url(&self, key: &str, suffix: &str) -> (r: String)
        ensures
            r@ == self.cfg().api_url_of("issue/"@ + key@ + suffix@),
    {
        let mut path = owned("issue/");
        push_str(&mut path, key);
        push_str(&mut path, suffix);
        self.cfg.api_url(path.as_str())
    }

    /// Arbitrary JQL search (list fields only).
    pub fn search_request(&self, jql: &str, max: u32) -> (r: HttpRequest)
        ensures
            request_is(r, self.cfg(), Method::Get, self.cfg().api_url_of("search"@), seq![
                ("jql"@, jql@),
                ("maxResults"@, decimal(max as nat)),
                ("fields"@, list_fields()),
            ]),
    {
        let mut n = String::new();
        push_decimal(&mut n, max as u128);
        let q = vec![pair("jql", jql), (owned("maxResults"), n), pair("fields", "summary,status,assignee,priority,issuetype,labels,updated,duedate")];
        assert(q.deep_view() =~= seq![("jql"@, jql@), ("maxResults"@, decimal(max as nat)), ("fields"@, list_fields())]);
        self.request(Method::Get, self.cfg.api_url("search"), q, None)
    }

    /// Issues assigned to the authenticated user, most recently updated first.
    pub fn my_issues_request(&self, max: u32) -> (r: HttpRequest)
        ensures
            request_is(r, self.cfg(), Method::Get, self.cfg().api_url_of("search"@), seq![
                ("jql"@, "assignee = currentUser() AND statusCategory != Done ORDER BY updated DESC"@),
                ("maxResults"@, decimal(max as nat)),
                ("fields"@, list_fields()),
            ]),
    {
        self.search_request(my_issues_jql().as_str(), max)
    }

    /// Full detail for one issue (description and comments included).
    pub fn issue_request(&self, key: &str) -> (r: HttpRequest)
        ensures
            request_is(r, self.cfg(), Method::Get, self.cfg().api_url_of("issue/"@ + key@), seq![("fields"@, detail_fields())]),
    {
        let url = self.issue_url(key, "");
        assert(("issue/"@ + key@ + ""@) =~= "issue/"@ + key@) by {
            reveal_strlit("");
        }
        let q = vec![pair("fields", "summary,status,assignee,reporter,priority,issuetype,labels,updated,created,duedate,description,comment")];
        assert(q.deep_view() =~= seq![("fields"@, detail_fields())]);
        self.request(Method::Get, url, q, None)
    }

    /// The issue with all its fields (`fields=*all`): the current values the
    /// edit dialog starts from.
    pub fn raw_fields_request(&self, key: &str) -> (r: HttpRequest)
        ensures
            request_is(r, self.cfg(), Method::Get, self.cfg().api_url_of("issue/"@ + key@), seq![("fields"@, "*all"@)]),
    {
        let url = self.issue_url(key, "");
        assert(("issue/"@ + key@ + ""@) =~= "issue/"@ + key@) by {
            reveal_strlit("");
        }
        let q = vec![pair("fields", "*all")];
        assert(q.deep_view() =~= seq![("fields"@, "*all"@)]);
        self.request(Method::Get, url, q, None)
    }

    /// The current user (confirms the connection works).
    pub fn myself_request(&self) -> (r: HttpRequest)
        ensures
            request_is(r, self.cfg(), Method::Get, self.cfg().api_url_of("myself"@), seq![]),
    {
        let q: Vec<(String, String)> = Vec::new();
        assert(q.deep_view() =~= Seq::<(Seq<char>, Seq<char>)>::empty());
        self.request(Method::Get, self.cfg.api_url("myself"), q, None)
    }

    /// Available workflow transitions, with the fields each requires.
    pub fn transitions_request(&self, key: &str) -> (r: HttpRequest)
        ensures
            request_is(r, self.cfg(), Method::Get, self.cfg().api_url_of("issue/"@ + key@ + "/transitions"@), seq![("expand"@, "transitions.fields"@)]),
    {
        let q = vec![pair("expand", "transitions.fields")];
        assert(q.deep_view() =~= seq![("expand"@, "transitions.fields"@)]);
        self.request(Method::Get, self.issue_url(key, "/transitions"), q, None)
    }

    /// Projects × issue types you can create in, fields included.
    pub fn create_meta_request(&self) -> (r: HttpRequest)
        ensures
            request_is(r, self.cfg(), Method::Get, self.cfg().api_url_of("issue/createmeta"@), seq![("expand"@, "projects.issuetypes.fields"@)]),
    {
        let q = vec![pair("expand", "projects.issuetypes.fields")];
        assert(q.deep_view() =~= seq![("expand"@, "projects.issuetypes.fields"@)]);
        self.request(Method::Get, self.cfg.api_url("issue/createmeta"), q, None)
    }

    /// Users who can be assigned this issue.
    pub fn assignable_users_request(&self, issue_key: &str) -> (r: HttpRequest)
        ensures
            request_is(r, self.cfg(), Method::Get, self.cfg().api_url_of("user/assignable/search"@), seq![
                ("issueKey"@, issue_key@),
                ("maxResults"@, "50"@),
            ]),
    {
        let q = vec![pair("issueKey", issue_key), pair("maxResults", "50")];
        assert(q.deep_view() =~= seq![("issueKey"@, issue_key@), ("maxResults"@, "50"@)]);
        self.request(Method::Get, self.cfg.api_url("user/assignable/search"), q, None)
    }

    /// Fields editable on this issue.
    pub fn edit_meta_request(&self, key: &str) -> (r: HttpRequest)
        ensures
            request_is(r, self.cfg(), Method::Get, self.cfg().api_url_of("issue/"@ + key@ + "/editmeta"@), seq![]),
    {
        let q: Vec<(String, String)> = Vec::new();
        assert(q.deep_view() =~= Seq::<(Seq<char>, Seq<char>)>::empty());
        self.request(Method::Get, self.issue_url(key, "/editmeta"), q, None)
    }

    /// Update fields on an issue: `PUT issue/<key>` with `{"fields": fields}`.
    pub fn update_issue_request(&self, key: &str, fields: Json) -> (r: HttpRequest)
        ensures
            request_is(r, self.cfg(), Method::Put, self.cfg().api_url_of("issue/"@ + key@), seq![]),
            body_of(r) == single("fields"@, fields.view_of()),
    {
        let url = self.issue_url(key, "");
        assert(("issue/"@ + key@ + ""@) =~= "issue/"@ + key@) by {
            reveal_strlit("");
        }
        let q: Vec<(String, String)> = Vec::new();
        assert(q.deep_view() =~= Seq::<(Seq<char>, Seq<char>)>::empty());
        self.request(Method::Put, url, q, Some(single_entry("fields", fields)))
    }

    /// Move an issue through a transition; a non-empty `extra_fields` object is
    /// sent as the transition's `fields`.
    pub fn transition_request(&self, key: &str, transition_id: &str, extra_fields: Json) -> (r: HttpRequest)
        ensures
            request_is(r, self.cfg(), Method::Post, self.cfg().api_url_of("issue/"@ + key@ + "/transitions"@), seq![]),
            body_of(r) == JsonView::Object(
                if extra_fields matches Json::Object(e) && e@.len() > 0 {
                    seq![("transition"@, single("id"@, JsonView::Str(transition_id@))), ("fields"@, extra_fields.view_of())]
                } else {
                    seq![("transition"@, single("id"@, JsonView::Str(transition_id@)))]
                },
            ),
    {
        let ghost ev = extra_fields.view_of();
        let send = extra_fields.is_nonempty_object();
        let t = single_entry("id", Json::string(transition_id));
        let ghost tv = t.view_of();
        let payload = if send {
            let e0 = (owned("transition"), t);
            let e1 = (owned("fields"), extra_fields);
            let p = Json::Object(vec![e0, e1]);
            assert(p.view_of()->Object_0 =~= seq![("transition"@, single("id"@, JsonView::Str(transition_id@))), ("fields"@, ev)]);
            p
        } else {
            let e0 = (owned("transition"), t);
            let p = Json::Object(vec![e0]);
            assert(p.view_of()->Object_0 =~= seq![("transition"@, single("id"@, JsonView::Str(transition_id@)))]);
            p
        };
        let q: Vec<(String, String)> = Vec::new();
        assert(q.deep_view() =~= Seq::<(Seq<char>, Seq<char>)>::empty());
        self.request(Method::Post, self.issue_url(key, "/transitions"), q, Some(payload))
    }

    /// JSM request comment: `public` replies to the customer, else internal note.
    pub fn request_comment_request(&self, key: &str, body: &str, public: bool) -> (r: HttpRequest)
        ensures
            request_is(r, self.cfg(), Method::Post, self.cfg().servicedesk_url_of("request/"@ + key@ + "/comment"@), seq![]),
            body_of(r) == JsonView::Object(seq![("body"@, JsonView::Str(body@)), ("public"@, JsonView::Bool(public))]),
    {
        let mut path = owned("request/");
        push_str(&mut path, key);
        push_str(&mut path, "/comment");
        let b = Json::string(body);
        let e0 = (owned("body"), b);
        let e1 = (owned("public"), Json::boolean(public));
        let p = Json::Object(vec![e0, e1]);
        assert(p.view_of()->Object_0 =~= seq![("body"@, JsonView::Str(body@)), ("public"@, JsonView::Bool(public))]);
        let q: Vec<(String, String)> = Vec::new();
        assert(q.deep_view() =~= Seq::<(Seq<char>, Seq<char>)>::empty());
        self.request(Method::Post, self.cfg.servicedesk_url(path.as_str()), q, Some(p))
    }

    /// Add a comment (plain text in API v2).
    pub fn add_comment_request(&self, key: &str, body: &str) -> (r: HttpRequest)
        ensures
            request_is(r, self.cfg(), Method::Post, self.cfg().api_url_of("issue/"@ + key@ + "/comment"@), seq![]),
            body_of(r) == single("body"@, JsonView::Str(body@)),
    {
        let q: Vec<(String, String)> = Vec::new();
        assert(q.deep_view() =~= Seq::<(Seq<char>, Seq<char>)>::empty());
        self.request(Method::Post, self.issue_url(key, "/comment"), q, Some(single_entry("body", Json::string(body))))
    }

    /// Assign an issue: Cloud (API token / OAuth) names the user by
    /// `accountId`, Server/DC by `name`.
    pub fn assign_request(&self, key: &str, assignee: &str) -> (r: HttpRequest)
        ensures
            request_is(r, self.cfg(), Method::Put, self.cfg().api_url_of("issue/"@ + key@ + "/assignee"@), seq![]),
            body_of(r) == single(
                if self.cfg().auth is Basic || self.cfg().auth is OAuth { "accountId"@ } else { "name"@ },
                JsonView::Str(assignee@),
            ),
    {
        let field = match &self.cfg.auth {
            Auth::Basic { .. } | Auth::OAuth { .. } => "accountId",
            _ => "name",
        };
        let q: Vec<(String, String)> = Vec::new();
        assert(q.deep_view() =~= Seq::<(Seq<char>, Seq<char>)>::empty());
        self.request(Method::Put, self.issue_url(key, "/assignee"), q, Some(single_entry(field, Json::string(assignee))))
    }

    /// Create an issue: project, type and summary, the description when
    /// given, then every entry of an `extra_fields` object (which may override).
    pub fn create_issue_request(
        &self,
        project_key: &str,
        issue_type: &str,
        summary: &str,
        description: Option<&str>,
        extra_fields: Json,
    ) -> (r: HttpRequest)
        ensures
            request_is(r, self.cfg(), Method::Post, self.cfg().api_url_of("issue"@), seq![]),
            body_of(r) == single("fields"@, JsonView::Object(merge_view(
                base_fields(project_key@, issue_type@, summary@, match description { Some(d) => Some(d@), None => None }),
                match extra_fields { Json::Object(e) => entries_view(e@), _ => seq![] },
            ))),
    {
        let mut fields: Vec<(String, Json)> = vec![
            (owned("project"), single_entry("key", Json::string(project_key))),
            (owned("issuetype"), single_entry("name", Json::string(issue_type))),
            (owned("summary"), Json::string(summary)),
        ];
        if let Some(d) = description {
            fields.push((owned("description"), Json::string(d)));
        }
        let ghost dv = match description { Some(d) => Some(d@), None => None };
        assert(entries_view(fields@) =~= base_fields(project_key@, issue_type@, summary@, dv));
        let ghost base0 = entries_view(fields@);
        match extra_fields {
            Json::Object(extra) => {
                let ghost xs = extra@;
                let ghost base = entries_view(fields@);
                let mut extra = extra;
                let mut c: usize = 0;
                let n: usize = extra.len();
                assert(entries_view(xs).take(0) =~= Seq::<(Seq<char>, JsonView)>::empty());
                assert(xs.skip(0) == xs);
                while extra.len() > 0
                    invariant
                        n == xs.len(),
                        c + extra@.len() == n,
                        extra@ == xs.skip(c as int),
                        entries_view(fields@) == merge_view(base, entries_view(xs).take(c as int)),
                    decreases extra.len(),
                {
                    let (k, v) = extra.remove(0);
                    assert(k == xs[c as int].0 && v == xs[c as int].1);
                    assert(extra@ =~= xs.skip(c + 1));
                    proof {
                        lemma_with_entry_view(fields@, k, v);
                    }
                    set_entry(&mut fields, k, v);
                    assert(entries_view(xs).take(c + 1).drop_last() =~= entries_view(xs).take(c as int));
                    assert(entries_view(xs).take(c + 1).last() == (xs[c as int].0@, xs[c as int].1.view_of()));
                    c = c + 1;
                }
                assert(entries_view(xs).take(n as int) =~= entries_view(xs));
            },
            _ => {
                assert(merge_view(base0, seq![]) == base0);
            },
        }
        let ghost fv = entries_view(fields@);
        let f = Json::Object(fields);
        assert(f.view_of()->Object_0 =~= fv);
        assert(f.view_of() == JsonView::Object(fv));
        let q: Vec<(String, String)> = Vec::new();
        assert(q.deep_view() =~= Seq::<(Seq<char>, Seq<char>)>::empty());
        self.request(Method::Post, self.cfg.api_url("issue"), q, Some(single_entry("fields", f)))
    }
}

/// The fields of a new issue before the extra ones.
pub open spec fn base_fields(project: Seq<char>, issue_type: Seq<char>, summary: Seq<char>, description: Option<Seq<char>>) -> Seq<(Seq<char>, JsonView)> {
    let base = seq![
        ("project"@, single("key"@, JsonView::Str(project))),
        ("issuetype"@, single("name"@, JsonView::Str(issue_type))),
        ("summary"@, JsonView::Str(summary)),
    ];
    match description {
        Some(d) => base.push(("description"@, JsonView::Str(d))),
        None => base,
    }
}

/// Field keys that the create dialog always asks for itself.
pub open spec fn builtin_create_key(k: Seq<char>) -> bool {
    k == "summary"@ || k == "project"@ || k == "issuetype"@ || k == "description"@ || k == "reporter"@
}

/// The required fields of a type that the dialog must render, in order.
pub open spec fn extra_required(fs: Seq<(Seq<char>, TransitionFieldView)>) -> Seq<(Seq<char>, TransitionFieldView)>
    decreases fs.len(),
{
    if fs.len() == 0 {
        seq![]
    } else if fs.last().1.required && !builtin_create_key(fs.last().0) {
        extra_required(fs.drop_last()).push(fs.last())
    } else {
        extra_required(fs.drop_last())
    }
}

/// One create option per project × issue type, in order.
pub open spec fn create_targets_of(ps: Seq<CreateProjectView>) -> Seq<CreateOptionView>
    decreases ps.len(),
{
    if ps.len() == 0 {
        seq![]
    } else {
        let p = ps.last();
        create_targets_of(ps.drop_last()) + Seq::new(
            p.issuetypes.len(),
            |j: int| CreateOptionView {
                project_key: p.key,
                project_name: p.name,
                issuetype_name: p.issuetypes[j].name,
                required: extra_required(p.issuetypes[j].fields),
            },
        )
    }
}

fn is_builtin_create_key(k: &str) -> (r: bool)
    ensures
        r == builtin_create_key(k@),
{
    str_eq(k, "summary") || str_eq(k, "project") || str_eq(k, "issuetype") || str_eq(k, "description")
        || str_eq(k, "reporter")
}

/// The required, not built-in fields of a field list.
pub fn required_extra_fields(fs: &Vec<(String, TransitionField)>) -> (r: Vec<(String, TransitionField)>)
    ensures
        r.deep_view() == extra_required(fs.deep_view()),
{
    let mut r: Vec<(String, TransitionField)> = Vec::new();
    let mut i: usize = 0;
    while i < fs.len()
        invariant
            i <= fs@.len(),
            r.deep_view() == extra_required(fs.deep_view().take(i as int)),
        decreases fs.len() - i,
    {
        let ghost t = fs.deep_view().take(i + 1);
        assert(t.drop_last() =~= fs.deep_view().take(i as int));
        assert(t.last() == fs@[i as int].deep_view());
        if fs[i].1.required && !is_builtin_create_key(fs[i].0.as_str()) {
            let k = fs[i].0.clone();
            let f = fs[i].1.clone();
            let ghost before = r.deep_view();
            r.push((k, f));
            assert(r.deep_view() =~= before.push(fs@[i as int].deep_view()));
        }
        i = i + 1;
    }
    assert(fs.deep_view().take(fs@.len() as int) =~= fs.deep_view());
    r
}

/// Projects × issue types you can create in, each with the required fields
/// the dialog must render (summary, project, type, description and reporter
/// are left out: the dialog has its own inputs for them).
pub fn create_targets_from(meta: &CreateMeta) -> (r: Vec<CreateOption>)
    ensures
        r.deep_view() == create_targets_of(meta.projects.deep_view()),
        r@.len() == type_count(meta.projects.deep_view()),
        (forall|p: int, t: int| 0 <= p < meta.projects@.len() && 0 <= t < meta.projects.deep_view()[p].issuetypes.len()
            ==> keys_ascending(#[trigger] meta.projects.deep_view()[p].issuetypes[t].fields)) ==> (forall|k: int|
            0 <= k < r@.len() ==> keys_ascending(#[trigger] r.deep_view()[k].required) && keys_unique(
                r.deep_view()[k].required,
            )),
{
    proof {
        law_create_option_count(meta.projects.deep_view());
        if forall|p: int, t: int| 0 <= p < meta.projects@.len() && 0 <= t < meta.projects.deep_view()[p].issuetypes.len()
            ==> keys_ascending(#[trigger] meta.projects.deep_view()[p].issuetypes[t].fields) {
            let ps = meta.projects.deep_view();
            law_create_options_keep_key_order(ps);
            assert forall|k: int| 0 <= k < create_targets_of(ps).len() implies keys_unique(
                #[trigger] create_targets_of(ps)[k].required,
            ) by {
                lemma_ascending_keys_unique(create_targets_of(ps)[k].required);
            }
        }
    }
    let mut out: Vec<CreateOption> = Vec::new();
    let mut i: usize = 0;
    while i < meta.projects.len()
        invariant
            i <= meta.projects@.len(),
            out.deep_view() == create_targets_of(meta.projects.deep_view().take(i as int)),
        decreases meta.projects.len() - i,
    {
        let p = &meta.projects[i];
        let ghost pv = p.deep_view();
        let ghost start = out.deep_view();
        let mut j: usize = 0;
        while j < p.issuetypes.len()
            invariant
                j <= p.issuetypes@.len(),
                pv == p.deep_view(),
                out.deep_view() == start + Seq::new(
                    j as nat,
                    |k: int| CreateOptionView {
                        project_key: pv.key,
                        project_name: pv.name,
                        issuetype_name: pv.issuetypes[k].name,
                        required: extra_required(pv.issuetypes[k].fields),
                    },
                ),
            decreases p.issuetypes.len() - j,
        {
            let t = &p.issuetypes[j];
            assert(t.deep_view() == pv.issuetypes[j as int]);
            let opt = CreateOption {
                project_key: p.key.clone(),
                project_name: p.name.clone(),
                issuetype_name: t.name.clone(),
                required: required_extra_fields(&t.fields),
            };
            let ghost before = out.deep_view();
            out.push(opt);
            assert(out.deep_view() =~= before.push(opt.deep_view()));
            j = j + 1;
        }
        let ghost t = meta.projects.deep_view().take(i + 1);
        assert(t.drop_last() =~= meta.projects.deep_view().take(i as int));
        assert(t.last() == pv);
        i = i + 1;
    }
    assert(meta.projects.deep_view().take(meta.projects@.len() as int) =~= meta.projects.deep_view());
    out
}

/// How many issue types the projects offer in all.
pub open spec fn type_count(ps: Seq<CreateProjectView>) -> int
    decreases ps.len(),
{
    if ps.len() == 0 {
        0
    } else {
        type_count(ps.drop_last()) + ps.last().issuetypes.len()
    }
}

proof fn lemma_type_count_nonneg(ps: Seq<CreateProjectView>)
    ensures
        type_count(ps) >= 0,
    decreases ps.len(),
{
    if ps.len() > 0 {
        lemma_type_count_nonneg(ps.drop_last());
    }
}

/// The types of a prefix of the projects are counted before the next one's.
proof fn lemma_type_count_take(ps: Seq<CreateProjectView>, p: int)
    requires
        0 <= p < ps.len(),
    ensures
        type_count(ps.take(p + 1)) == type_count(ps.take(p)) + ps[p].issuetypes.len(),
        type_count(ps.take(p + 1)) <= type_count(ps),
    decreases ps.len(),
{
    assert(ps.take(p + 1).drop_last() =~= ps.take(p));
    if p + 1 == ps.len() {
        assert(ps.take(p + 1) =~= ps);
    } else {
        lemma_type_count_take(ps.drop_last(), p);
        assert(ps.drop_last().take(p + 1) =~= ps.take(p + 1));
        assert(ps.drop_last()[p] == ps[p]);
    }
}

/// There is one create option per (project, issue type) pair: as many
/// options as issue types over all projects.
pub proof fn law_create_option_count(ps: Seq<CreateProjectView>)
    ensures
        create_targets_of(ps).len() == type_count(ps),
    decreases ps.len(),
{
    if ps.len() > 0 {
        law_create_option_count(ps.drop_last());
    }
}

/// The option for project `p`'s `t`-th issue type comes after those of the
/// projects before it and the types before it, and carries `p`'s key and
/// name, the type's name and the type's required extra fields.
pub proof fn law_create_option_at(ps: Seq<CreateProjectView>, p: int, t: int)
    requires
        0 <= p < ps.len(),
        0 <= t < ps[p].issuetypes.len(),
    ensures
        type_count(ps.take(p)) + t < create_targets_of(ps).len(),
        create_targets_of(ps)[type_count(ps.take(p)) + t] == (CreateOptionView {
            project_key: ps[p].key,
            project_name: ps[p].name,
            issuetype_name: ps[p].issuetypes[t].name,
            required: extra_required(ps[p].issuetypes[t].fields),
        }),
    decreases ps.len(),
{
    law_create_option_count(ps);
    lemma_type_count_take(ps, p);
    let init = ps.drop_last();
    law_create_option_count(init);
    let head = create_targets_of(init);
    let last = ps.last();
    let tail = Seq::new(
        last.issuetypes.len(),
        |j: int| CreateOptionView {
            project_key: last.key,
            project_name: last.name,
            issuetype_name: last.issuetypes[j].name,
            required: extra_required(last.issuetypes[j].fields),
        },
    );
    assert(create_targets_of(ps) == head + tail);
    if p == ps.len() - 1 {
        assert(ps.take(p) =~= init);
        assert((head + tail)[head.len() + t] == tail[t]);
    } else {
        assert(init.take(p) =~= ps.take(p));
        law_create_option_at(init, p, t);
        assert(init[p] == ps[p]);
        let i = type_count(ps.take(p)) + t;
        assert(type_count(init.take(p)) == type_count(ps.take(p)));
        assert(i < head.len());
        lemma_type_count_nonneg(ps.take(p));
        assert((head + tail)[i] == head[i]);
    }
}

/// The key of a created issue from the create answer (`""` when absent).
pub fn created_key(resp: &Json) -> (r: String)
    ensures
        r@ == (match resp.get_of("key"@) {
            Some(v) => match v.str_of() {
                Some(s) => s,
                None => seq![],
            },
            None => seq![],
        }),
{
    match resp.get("key") {
        Some(v) => match v.as_str() {
            Some(s) => owned(s),
            None => String::new(),
        },
        None => String::new(),
    }
}

/// The entries of the `fields` object of an issue answer; none when the
/// answer has no such object.
pub fn raw_fields_of(resp: Json) -> (r: Vec<(String, Json)>)
    ensures
        match resp.get_of("fields"@) {
            Some(Json::Object(e)) => r@ == e@,
            _ => r@.len() == 0,
        },
{
    match resp {
        Json::Object(entries) => {
            let mut entries = entries;
            match find_entry(&entries, "fields") {
                Some(i) => {
                    let (_, v) = entries.swap_remove(i);
                    match v {
                        Json::Object(e) => e,
                        _ => Vec::new(),
                    }
                },
                None => Vec::new(),
            }
        },
        _ => Vec::new(),
    }
}

/// The error for a Jira error status: the status and the first 300
/// characters of the body.
pub fn status_error(code: u16, body: &str) -> (r: JiraError)
    ensures
        r matches JiraError::Status(c, s) && c == code && s@ == (if body@.len() <= 300 { body@ } else { body@.take(300) }),
{
    let v = chars_of(body);
    let n = if v.len() <= 300 { v.len() } else { 300 };
    let s = string_of(&v, 0, n);
    assert(v@.subrange(0, n as int) =~= (if body@.len() <= 300 { body@ } else { body@.take(300) }));
    JiraError::Status(code, s)
}

/// The "New issue" dialog is only asked for fields it does not already have:
/// every extra field is required and none is summary, project, issue type,
/// description or reporter; and every required field that is not one of
/// those is asked for.
pub proof fn law_create_fields_are_extra(fs: Seq<(Seq<char>, TransitionFieldView)>)
    ensures
        forall|i: int| 0 <= i < extra_required(fs).len() ==> (#[trigger] extra_required(fs)[i]).1.required
            && !builtin_create_key(extra_required(fs)[i].0),
        forall|j: int| 0 <= j < fs.len() && (#[trigger] fs[j]).1.required && !builtin_create_key(fs[j].0)
            ==> extra_required(fs).contains(fs[j]),
    decreases fs.len(),
{
    if fs.len() > 0 {
        law_create_fields_are_extra(fs.drop_last());
        let init = extra_required(fs.drop_last());
        assert forall|j: int| 0 <= j < fs.len() && (#[trigger] fs[j]).1.required && !builtin_create_key(fs[j].0)
            implies extra_required(fs).contains(fs[j]) by {
            if j < fs.len() - 1 {
                assert(fs.drop_last()[j] == fs[j]);
                let k = choose|k: int| 0 <= k < init.len() && init[k] == fs[j];
                if fs.last().1.required && !builtin_create_key(fs.last().0) {
                    assert(extra_required(fs)[k] == fs[j]);
                }
            } else {
                assert(extra_required(fs).last() == fs[j]);
            }
        }
    }
}

/// Every extra field is a field of the list, and one from before the list's
/// last entry unless it is that entry.
proof fn lemma_extra_from_list(fs: Seq<(Seq<char>, TransitionFieldView)>)
    ensures
        forall|k: int| 0 <= k < extra_required(fs).len() ==> exists|i: int| 0 <= i < fs.len()
            && #[trigger] extra_required(fs)[k] == fs[i] && (i == fs.len() - 1 ==> k == extra_required(fs).len() - 1),
    decreases fs.len(),
{
    if fs.len() > 0 {
        lemma_extra_from_list(fs.drop_last());
        let init = extra_required(fs.drop_last());
        assert forall|k: int| 0 <= k < extra_required(fs).len() implies exists|i: int| 0 <= i < fs.len()
            && #[trigger] extra_required(fs)[k] == fs[i] && (i == fs.len() - 1 ==> k == extra_required(fs).len() - 1) by {
            if k < init.len() {
                let i = choose|i: int| 0 <= i < fs.drop_last().len() && #[trigger] init[k] == fs.drop_last()[i]
                    && (i == fs.drop_last().len() - 1 ==> k == init.len() - 1);
                assert(extra_required(fs)[k] == init[k]);
                assert(fs[i] == fs.drop_last()[i]);
            } else {
                assert(extra_required(fs)[k] == fs[fs.len() - 1]);
            }
        }
    }
}

/// The extra fields of a list in key order are in key order too.
pub proof fn lemma_extra_keeps_key_order(fs: Seq<(Seq<char>, TransitionFieldView)>)
    requires
        keys_ascending(fs),
    ensures
        keys_ascending(extra_required(fs)),
    decreases fs.len(),
{
    if fs.len() > 0 {
        let init_fs = fs.drop_last();
        assert(keys_ascending(init_fs)) by {
            assert forall|i: int, j: int| 0 <= i < j < init_fs.len() implies key_less(#[trigger] init_fs[i].0, #[trigger] init_fs[j].0) by {
                assert(init_fs[i] == fs[i] && init_fs[j] == fs[j]);
            }
        }
        lemma_extra_keeps_key_order(init_fs);
        lemma_extra_from_list(init_fs);
        let init = extra_required(init_fs);
        let e = extra_required(fs);
        if fs.last().1.required && !builtin_create_key(fs.last().0) {
            assert forall|i: int, j: int| 0 <= i < j < e.len() implies key_less(#[trigger] e[i].0, #[trigger] e[j].0) by {
                if j < init.len() {
                    assert(e[i] == init[i] && e[j] == init[j]);
                } else {
                    let a = choose|a: int| 0 <= a < init_fs.len() && #[trigger] init[i] == init_fs[a]
                        && (a == init_fs.len() - 1 ==> i == init.len() - 1);
                    assert(e[i] == init[i]);
                    assert(e[j] == fs[fs.len() - 1]);
                    assert(init_fs[a] == fs[a]);
                }
            }
        }
    }
}

/// Each create option lists its required fields in key order, when each
/// issue type's field map came in key order (as Jira's maps do).
pub proof fn law_create_options_keep_key_order(ps: Seq<CreateProjectView>)
    requires
        forall|p: int, t: int| 0 <= p < ps.len() && 0 <= t < ps[p].issuetypes.len() ==> keys_ascending(
            #[trigger] ps[p].issuetypes[t].fields,
        ),
    ensures
        forall|k: int| 0 <= k < create_targets_of(ps).len() ==> keys_ascending(#[trigger] create_targets_of(ps)[k].required),
    decreases ps.len(),
{
    if ps.len() > 0 {
        let init = ps.drop_last();
        assert forall|p: int, t: int| 0 <= p < init.len() && 0 <= t < init[p].issuetypes.len() implies keys_ascending(
            #[trigger] init[p].issuetypes[t].fields,
        ) by {
            assert(init[p] == ps[p]);
        }
        law_create_options_keep_key_order(init);
        let head = create_targets_of(init);
        let p = ps.last();
        assert forall|k: int| 0 <= k < create_targets_of(ps).len() implies keys_ascending(#[trigger] create_targets_of(ps)[k].required) by {
            if k < head.len() {
                assert(create_targets_of(ps)[k] == head[k]);
            } else {
                let t = k - head.len();
                assert(keys_ascending(ps[ps.len() - 1].issuetypes[t].fields));
                lemma_extra_keeps_key_order(p.issuetypes[t].fields);
            }
        }
    }
}

} // verus!
