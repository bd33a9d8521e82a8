use lient_core::api::JiraError;
use lient_core::client::{
    create_targets_from, created_key, my_issues_jql, raw_fields_of, status_error, transition_field_json,
    JiraClient, Method,
};
use lient_core::config::{Auth, JiraConfig};
use lient_core::json::Json;
use lient_core::model::{AllowedValue, CreateIssueType, CreateMeta, CreateProject, FieldSchema, TransitionField};

fn s(x: &str) -> String {
    x.to_string()
}

fn client(auth: Auth) -> JiraClient {
    JiraClient::new(JiraConfig { base_url: s("https://jira.co/"), auth, api_version: s("2") })
}

#[test]
fn my_issues_jql_is_sane() {
    let jql = my_issues_jql();
    assert!(jql.contains("currentUser()"));
    assert!(jql.contains("statusCategory != Done"));
    assert!(jql.contains("ORDER BY updated DESC"));
}

#[test]
fn transition_field_json_shapes() {
    // a pick-list field -> { "id": <id> }
    let select = TransitionField {
        required: true,
        name: s("Resolution"),
        schema: FieldSchema { type_: s("resolution"), items: String::new() },
        allowed_values: vec![AllowedValue { id: s("10000"), name: s("Done"), value: String::new() }],
    };
    assert_eq!(transition_field_json(&select, "10000"), Json::Object(vec![(s("id"), Json::Str(s("10000")))]));

    // a free-text field -> raw string
    let mut text = TransitionField::default();
    text.required = true;
    text.name = s("Notes");
    assert_eq!(transition_field_json(&text, "hello"), Json::Str(s("hello")));

    // an array field -> wrapped list
    let multi = TransitionField {
        required: true,
        name: s("Labels"),
        schema: FieldSchema { type_: s("array"), items: s("option") },
        allowed_values: vec![AllowedValue { id: s("1"), name: s("A"), value: String::new() }],
    };
    assert_eq!(transition_field_json(&multi, "1"), Json::Array(vec![Json::Object(vec![(s("id"), Json::Str(s("1")))])]));
}

#[test]
fn reads_carry_auth_and_query() {
    let c = client(Auth::Bearer { token: s("PAT") });
    let r = c.search_request("project = X", 25);
    assert_eq!(r.method, Method::Get);
    assert_eq!(r.url, "https://jira.co/rest/api/2/search");
    assert_eq!(r.headers, vec![(s("Authorization"), s("Bearer PAT")), (s("Accept"), s("application/json"))]);
    assert_eq!(r.query[0], (s("jql"), s("project = X")));
    assert_eq!(r.query[1], (s("maxResults"), s("25")));
    assert_eq!(r.query[2].0, "fields");
    assert!(r.body.is_none());
    let mine = c.my_issues_request(50);
    assert_eq!(mine.query[0].1, my_issues_jql());
    let t = c.transitions_request("ENG-1");
    assert_eq!(t.url, "https://jira.co/rest/api/2/issue/ENG-1/transitions");
    assert_eq!(t.query, vec![(s("expand"), s("transitions.fields"))]);
    assert_eq!(c.myself_request().url, "https://jira.co/rest/api/2/myself");
    assert_eq!(c.edit_meta_request("A-1").url, "https://jira.co/rest/api/2/issue/A-1/editmeta");
    assert_eq!(c.create_meta_request().query, vec![(s("expand"), s("projects.issuetypes.fields"))]);
    let u = c.assignable_users_request("A-1");
    assert_eq!(u.query, vec![(s("issueKey"), s("A-1")), (s("maxResults"), s("50"))]);
    assert_eq!(c.config().base_url, "https://jira.co/");
}

#[test]
fn writes_send_json() {
    let c = client(Auth::Bearer { token: s("PAT") });
    let t = c.transition_request("ENG-1", "31", Json::Object(Vec::new()));
    assert_eq!(t.method, Method::Post);
    assert_eq!(t.headers.len(), 3);
    assert_eq!(t.headers[2], (s("Content-Type"), s("application/json")));
    assert_eq!(
        t.body,
        Some(Json::Object(vec![(s("transition"), Json::Object(vec![(s("id"), Json::Str(s("31")))]))]))
    );
    let fields = Json::Object(vec![(s("resolution"), Json::Object(vec![(s("id"), Json::Str(s("1")))]))]);
    let t = c.transition_request("ENG-1", "31", fields);
    match &t.body {
        Some(Json::Object(e)) => {
            assert_eq!(e.len(), 2);
            assert_eq!(e[1].0, "fields");
        }
        _ => panic!("expected an object body"),
    }
    let a = c.add_comment_request("ENG-1", "hi");
    assert_eq!(a.url, "https://jira.co/rest/api/2/issue/ENG-1/comment");
    assert_eq!(a.body, Some(Json::Object(vec![(s("body"), Json::Str(s("hi")))])));
    let r = c.request_comment_request("ENG-1", "hi", true);
    assert_eq!(r.url, "https://jira.co/rest/servicedeskapi/request/ENG-1/comment");
    assert_eq!(r.body, Some(Json::Object(vec![(s("body"), Json::Str(s("hi"))), (s("public"), Json::Bool(true))])));
    let u = c.update_issue_request("ENG-1", Json::Object(Vec::new()));
    assert_eq!(u.method, Method::Put);
    assert_eq!(u.body, Some(Json::Object(vec![(s("fields"), Json::Object(Vec::new()))])));
}

#[test]
fn assign_uses_account_id_on_cloud_and_name_on_server() {
    let cloud = client(Auth::Basic { email: s("a@b.com"), token: s("t") });
    let r = cloud.assign_request("ENG-1", "acc-1");
    assert_eq!(r.method, Method::Put);
    assert_eq!(r.url, "https://jira.co/rest/api/2/issue/ENG-1/assignee");
    assert_eq!(r.body, Some(Json::Object(vec![(s("accountId"), Json::Str(s("acc-1")))])));
    let server = client(Auth::Bearer { token: s("PAT") });
    let r = server.assign_request("ENG-1", "marc");
    assert_eq!(r.body, Some(Json::Object(vec![(s("name"), Json::Str(s("marc")))])));
}

#[test]
fn create_issue_merges_extra_fields() {
    let c = client(Auth::Bearer { token: s("PAT") });
    let extra = Json::Object(vec![
        (s("customfield_1"), Json::Str(s("x"))),
        (s("summary"), Json::Str(s("override"))),
    ]);
    let r = c.create_issue_request("ACME", "Task", "Sum", Some("Desc"), extra);
    assert_eq!(r.url, "https://jira.co/rest/api/2/issue");
    let fields: &Vec<(String, Json)> = match &r.body {
        Some(Json::Object(e)) => {
            assert_eq!(e.len(), 1);
            assert_eq!(e[0].0, "fields");
            match &e[0].1 {
                Json::Object(f) => f,
                _ => panic!("fields is an object"),
            }
        }
        _ => panic!("expected an object body"),
    };
    let keys: Vec<&str> = fields.iter().map(|(k, _)| k.as_str()).collect();
    assert_eq!(keys, vec!["project", "issuetype", "summary", "description", "customfield_1"]);
    assert_eq!(fields[2].1, Json::Str(s("override")));
    assert_eq!(fields[0].1, Json::Object(vec![(s("key"), Json::Str(s("ACME")))]));
}

#[test]
fn created_key_and_status_errors() {
    assert_eq!(created_key(&Json::Object(vec![(s("key"), Json::Str(s("ACME-9")))])), "ACME-9");
    assert_eq!(created_key(&Json::Null), "");
    let long = "x".repeat(400);
    match status_error(500, &long) {
        JiraError::Status(code, body) => {
            assert_eq!(code, 500);
            assert_eq!(body.len(), 300);
        }
        _ => panic!("expected a status error"),
    }
    assert_eq!(status_error(404, "nope").message(), "Jira returned 404: nope");
}

#[test]
fn create_targets_skip_builtin_fields() {
    let mut req = TransitionField::default();
    req.required = true;
    let mut opt = TransitionField::default();
    opt.required = false;
    let t = CreateIssueType {
        name: s("Task"),
        id: s("1"),
        fields: vec![(s("summary"), req.clone()), (s("customfield_9"), req.clone()), (s("labels"), opt)],
    };
    let p = CreateProject { key: s("ACME"), name: s("Acme"), issuetypes: vec![t] };
    let meta = CreateMeta { projects: vec![p] };
    let out = create_targets_from(&meta);
    assert_eq!(out.len(), 1);
    assert_eq!(out[0].project_key, "ACME");
    assert_eq!(out[0].issuetype_name, "Task");
    assert_eq!(out[0].required.len(), 1);
    assert_eq!(out[0].required[0].0, "customfield_9");
}

#[test]
fn raw_fields_read_the_fields_object() {
    let c = client(Auth::Bearer { token: s("PAT") });
    let r = c.raw_fields_request("ENG-1");
    assert_eq!(r.url, "https://jira.co/rest/api/2/issue/ENG-1");
    assert_eq!(r.query, vec![(s("fields"), s("*all"))]);
    let answer = Json::Object(vec![
        (s("key"), Json::Str(s("ENG-1"))),
        (s("fields"), Json::Object(vec![(s("summary"), Json::Str(s("Hi")))])),
    ]);
    assert_eq!(raw_fields_of(answer), vec![(s("summary"), Json::Str(s("Hi")))]);
    assert_eq!(raw_fields_of(Json::Object(vec![(s("fields"), Json::Null)])), Vec::new());
    assert_eq!(raw_fields_of(Json::Null), Vec::new());
}
