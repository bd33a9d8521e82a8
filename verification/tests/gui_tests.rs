use lient_core::gui::{comment_action, CommentAction};
use lient_core::gui::{start, Start};
use lient_core::config::Auth;
use lient_core::dialog::{
    create_dialog_of, edit_dialog_of, prefill_of, transition_step, PendingKind, Submission, TransitionStep,
};
use lient_core::gui::{
    cache_file_name_of, config_from_form, detail_of, list_source, me_label_of, palette_action, palette_commands,
    palette_filter, palette_hits, to_comment, to_row, ListSource, LoginForm, PaletteAction,
};
use lient_core::json::Json;
use lient_core::mock::MockJira;
use lient_core::Jira;
use lient_core::model::{AllowedValue, Comment, Fields, Issue, NamedRef, TransitionField, User};

fn s(x: &str) -> String {
    x.to_string()
}

fn sample_issue() -> Issue {
    let mut f = Fields::default();
    f.summary = s("Hi there");
    f.status = Some(NamedRef { name: s("To Do"), id: String::new() });
    f.priority = Some(NamedRef { name: s("High"), id: String::new() });
    f.issuetype = Some(NamedRef { name: s("Task"), id: String::new() });
    f.assignee = Some(User { display_name: s("Sam"), account_id: String::new(), name: String::new(), email: String::new() });
    f.labels = vec![s("urgent")];
    Issue { key: s("X-1"), id: String::new(), fields: f }
}

fn form(method: &str) -> LoginForm {
    LoginForm {
        url: s(" https://x.atlassian.net "),
        method: s(method),
        email: s(" a@b.com "),
        token: s(" tok "),
        username: s(" marc "),
        password: s(" pw "),
        raw: s(" Bearer custom "),
    }
}

#[test]
fn window_constructs_binds_detail_and_list() {
    let issue = sample_issue();

    // row conversion
    let row = to_row(&issue);
    assert_eq!(row.key, "X-1");
    assert_eq!(row.status, "To Do");
    assert_eq!(row.assignee, "Sam");

    // detail binding
    let d = detail_of(&issue, &Vec::new());
    assert_eq!(d.summary, "Hi there");
    assert_eq!(d.status, "To Do");
    let meta = d.meta;
    assert!(meta.contains("High") && meta.contains("Sam") && meta.contains("urgent"));
}

#[test]
fn palette_commands_filter() {
    let hits = palette_filter("refresh");
    assert_eq!(hits.len(), 1);
    // every command id is dispatchable (matches the palette actions)
    for (id, _) in palette_commands() {
        assert!(matches!(id.as_str(), "new" | "refresh" | "edit" | "open" | "account" | "quit"));
        assert!(palette_action(&id, "X-1").is_some());
    }
}

#[test]
fn palette_matching_ignores_case() {
    let hits = palette_filter("ISSUE");
    let ids: Vec<&str> = hits.iter().map(|(id, _)| id.as_str()).collect();
    assert_eq!(ids, vec!["new", "edit", "open"]);
    assert_eq!(palette_filter("").len(), 6);
    assert_eq!(palette_filter("zzz").len(), 0);
    // the query handed to palette_hits is taken as already lowercased
    assert_eq!(palette_hits("QUIT").len(), 0);
    assert_eq!(palette_hits("quit").len(), 1);
}

#[test]
fn palette_actions_need_a_selection_to_edit_or_open() {
    assert!(matches!(palette_action("new", ""), Some(PaletteAction::NewIssue)));
    assert!(matches!(palette_action("refresh", ""), Some(PaletteAction::Refresh)));
    assert!(palette_action("edit", "").is_none());
    assert!(palette_action("open", "").is_none());
    match palette_action("edit", "X-1") {
        Some(PaletteAction::EditIssue(k)) => assert_eq!(k, "X-1"),
        _ => panic!("expected edit"),
    }
    match palette_action("open", "X-1") {
        Some(PaletteAction::OpenBrowser(k)) => assert_eq!(k, "X-1"),
        _ => panic!("expected open"),
    }
    assert!(matches!(palette_action("account", ""), Some(PaletteAction::ShowLogin)));
    assert!(matches!(palette_action("quit", ""), Some(PaletteAction::Quit)));
    assert!(palette_action("bogus", "X-1").is_none());
}

#[test]
fn detail_meta_lists_labels_and_due_date() {
    let mut issue = sample_issue();
    issue.fields.labels = vec![s("a"), s("b")];
    issue.fields.duedate = Some(s("2026-01-02"));
    issue.fields.description = Some(s("desc"));
    let d = detail_of(&issue, &Vec::new());
    assert_eq!(d.meta, "Task · High · Sam · a, b · due 2026-01-02");
    assert_eq!(d.desc, "desc");
    let plain = detail_of(&Issue { key: s("Y-1"), id: String::new(), fields: Fields::default() }, &Vec::new());
    assert_eq!(plain.meta, " ·  · Unassigned");
    assert_eq!(plain.desc, "");
}

#[test]
fn detail_lists_comments_and_transitions() {
    let mut m = MockJira::new();
    let issue = m.issue("ACME-101").unwrap();
    let ts = m.transitions("ACME-101").unwrap();
    let d = detail_of(&issue, &ts);
    assert_eq!(d.comments.len(), 1);
    assert_eq!(d.comments[0].author, "Dana Lee");
    assert_eq!(d.comments[0].created, "2026-06-02");
    assert_eq!(d.transitions.len(), 2);
    assert_eq!(d.transitions[0].id, "31");
    assert_eq!(d.transitions[0].to, "Done");
    assert_eq!(d.transitions[0].requires, "resolution");
    assert_eq!(d.transitions[1].requires, "");
}

#[test]
fn comment_rows_cut_the_date() {
    let c = Comment { id: s("1"), author: None, body: s("b"), created: s("2026-06-02T10:15:00") };
    let r = to_comment(&c);
    assert_eq!(r.author, "");
    assert_eq!(r.created, "2026-06-02");
    let short = Comment { id: s("2"), author: None, body: s("b"), created: s("2026") };
    assert_eq!(to_comment(&short).created, "2026");
}

#[test]
fn me_label_shows_email_when_known() {
    let u = User { display_name: s("Marc"), account_id: s("me"), name: s("marc"), email: s("m@x") };
    assert_eq!(me_label_of(&u), "Marc <m@x>");
    let v = User { email: String::new(), ..u };
    assert_eq!(me_label_of(&v), "Marc");
}

#[test]
fn cache_names_are_safe() {
    assert_eq!(cache_file_name_of("X-1"), "X-1.json");
    assert_eq!(cache_file_name_of("../a b/é"), "___a_b__.json");
}

#[test]
fn list_source_by_view() {
    match list_source(true) {
        ListSource::Search { jql, max } => {
            assert_eq!(jql, "assignee = currentUser() AND updated >= -7d ORDER BY updated DESC");
            assert_eq!(max, 100);
        }
        _ => panic!("expected a search"),
    }
    assert!(matches!(list_source(false), ListSource::MyIssues { max: 100 }));
}

#[test]
fn login_form_builds_each_auth() {
    let c = config_from_form(&form("token")).unwrap();
    assert_eq!(c.base_url, "https://x.atlassian.net");
    assert_eq!(c.api_version, "2");
    assert_eq!(c.auth, Auth::Basic { email: s("a@b.com"), token: s("tok") });
    assert_eq!(config_from_form(&form("pat")).unwrap().auth, Auth::Bearer { token: s("tok") });
    assert_eq!(
        config_from_form(&form("password")).unwrap().auth,
        Auth::Password { username: s("marc"), password: s(" pw ") }
    );
    assert_eq!(config_from_form(&form("raw")).unwrap().auth, Auth::Raw { header: s("Bearer custom") });
}

#[test]
fn login_form_errors() {
    let mut f = form("token");
    f.url = s("  ");
    assert_eq!(config_from_form(&f).err(), Some(s("Enter your Jira site URL")));
    let mut f = form("token");
    f.email = String::new();
    assert_eq!(config_from_form(&f).err(), Some(s("Email and API token are required")));
    let mut f = form("pat");
    f.token = s(" ");
    assert_eq!(config_from_form(&f).err(), Some(s("Personal Access Token is required")));
    assert_eq!(config_from_form(&form("sso")).err(), Some(s("unknown method sso")));
}

#[test]
fn transitions_without_required_fields_run_at_once() {
    let mut m = MockJira::new();
    let ts = m.transitions("ACME-102").unwrap();
    match transition_step(&ts, "ACME-102", "21") {
        TransitionStep::Execute { key, tid } => {
            assert_eq!(key, "ACME-102");
            assert_eq!(tid, "21");
        }
        _ => panic!("expected to run it"),
    }
    m.transition("ACME-102", "21", Json::Null).unwrap();
    let ts = m.transitions("ACME-102").unwrap();
    let d = match transition_step(&ts, "ACME-102", "31") {
        TransitionStep::Ask(d) => d,
        _ => panic!("expected a dialog"),
    };
    assert_eq!(d.title, "Confirm: ACME-102");
    assert_eq!(d.rows.len(), 1);
    assert_eq!(d.rows[0].name, "Resolution");
    assert!(d.rows[0].is_select);
    assert_eq!(d.rows[0].options, vec![s("Done"), s("Won't Do"), s("Duplicate")]);
    assert_eq!(d.rows[0].value, "Done");
    assert_eq!(d.pending.fields[0].value, "10000");
    // submitting sends the chosen resolution
    let mut p = d.pending;
    assert_eq!(p.field_changed(0, "Duplicate"), None);
    match p.submit() {
        Submission::Transition { key, tid, fields } => {
            assert_eq!(key, "ACME-102");
            assert_eq!(tid, "31");
            assert_eq!(
                fields,
                Json::Object(vec![(s("resolution"), Json::Object(vec![(s("id"), Json::Str(s("10002")))]))])
            );
        }
        _ => panic!("expected a transition"),
    }
}

#[test]
fn edit_dialog_prefills_and_submits_touched_fields() {
    let m = MockJira::new();
    let metas = m.edit_meta("ACME-101").unwrap();
    let users = m.assignable_users("ACME-101").unwrap();
    let raw = vec![
        (s("summary"), Json::Str(s("Draft"))),
        (s("priority"), Json::Object(vec![(s("id"), Json::Str(s("3")))])),
        (s("assignee"), Json::Object(vec![(s("accountId"), Json::Str(s("dana")))])),
        (s("labels"), Json::Array(vec![Json::Str(s("legal")), Json::Str(s("q3"))])),
    ];
    let d = edit_dialog_of("ACME-101", &metas, &users, &raw).unwrap();
    assert_eq!(d.title, "Edit ACME-101");
    let names: Vec<&str> = d.rows.iter().map(|r| r.name.as_str()).collect();
    assert_eq!(names, vec!["Summary", "Assignee", "Priority", "Due date", "Labels", "Severity (custom field)"]);
    assert_eq!(d.rows[0].value, "Draft");
    assert_eq!(d.rows[1].value, "Dana Lee");
    assert_eq!(d.rows[1].options, vec![s("Marc Jones"), s("Dana Lee"), s("Sam Patel")]);
    assert_eq!(d.rows[2].value, "Medium");
    assert_eq!(d.rows[3].value, "");
    assert_eq!(d.rows[4].value, "legal, q3");
    assert_eq!(d.rows[5].value, "Sev-1");
    assert!(matches!(d.pending.kind, PendingKind::Edit));

    // nothing touched: nothing to send
    let mut p = d.pending;
    let untouched = edit_dialog_of("ACME-101", &metas, &users, &raw).unwrap().pending;
    assert!(matches!(untouched.submit(), Submission::Nothing));

    p.field_changed(1, "Sam Patel");
    p.field_changed(4, " a, ,b ");
    p.field_changed(2, "High");
    match p.submit() {
        Submission::Edit { key, assignee, fields } => {
            assert_eq!(key, "ACME-101");
            assert_eq!(assignee, Some(s("sam")));
            assert_eq!(
                fields,
                Json::Object(vec![
                    (s("priority"), Json::Object(vec![(s("id"), Json::Str(s("2")))])),
                    (s("labels"), Json::Array(vec![Json::Str(s("a")), Json::Str(s("b"))])),
                ])
            );
        }
        _ => panic!("expected an edit"),
    }
}

#[test]
fn edit_dialog_needs_an_editable_field() {
    let metas = vec![(s("reporter"), TransitionField::default())];
    let r = edit_dialog_of("A-1", &metas, &Vec::new(), &Vec::new());
    assert_eq!(r.err(), Some(s("No editable fields for this issue.")));
}

#[test]
fn prefill_reads_current_values() {
    let mut f = TransitionField::default();
    f.allowed_values = vec![
        AllowedValue { id: s("1"), name: s("One"), value: String::new() },
        AllowedValue { id: s("2"), name: String::new(), value: s("Two") },
    ];
    let raw = vec![
        (s("pick"), Json::Array(vec![Json::Object(vec![(s("id"), Json::Str(s("2")))])])),
        (s("gone"), Json::Object(vec![(s("id"), Json::Str(s("9")))])),
        (s("text"), Json::Str(s("hello"))),
    ];
    assert_eq!(prefill_of("pick", &f, &raw), (s("2"), s("Two")));
    assert_eq!(prefill_of("gone", &f, &raw), (s("1"), s("One")));
    assert_eq!(prefill_of("missing", &f, &raw), (s("1"), s("One")));
    let free = TransitionField::default();
    assert_eq!(prefill_of("text", &free, &raw), (s("hello"), s("hello")));
    assert_eq!(prefill_of("pick", &free, &raw), (String::new(), String::new()));
}

#[test]
fn create_dialog_and_submission() {
    let m = MockJira::new();
    let opts = m.create_targets().unwrap();
    let d = create_dialog_of(&opts, "", "", "").unwrap();
    assert_eq!(d.title, "New issue");
    assert_eq!(d.rows.len(), 3);
    assert_eq!(d.rows[0].value, "Acme Legal (ACME) — Task");
    assert_eq!(d.pending.fields[0].value, "ACME|Task");
    assert!(d.pending.fields[0].touched);

    // switching to Matter asks for a rebuild that keeps what was typed
    let mut p = d.pending;
    p.field_changed(1, "My summary");
    let rebuild = p.field_changed(0, "Acme Legal (ACME) — Matter");
    assert_eq!(rebuild, Some((s("ACME|Matter"), s("My summary"), String::new())));
    let d = create_dialog_of(&opts, "ACME|Matter", "My summary", "").unwrap();
    assert_eq!(d.rows.len(), 4);
    assert_eq!(d.rows[3].name, "Practice area *");
    assert_eq!(d.rows[3].value, "Corporate");
    let mut p = d.pending;
    p.field_changed(3, "IP");
    match p.submit() {
        Submission::Create { project, issue_type, summary, description, extra } => {
            assert_eq!(project, "ACME");
            assert_eq!(issue_type, "Matter");
            assert_eq!(summary, "My summary");
            assert_eq!(description, None);
            assert_eq!(
                extra,
                Json::Object(vec![(s("customfield_20000"), Json::Object(vec![(s("id"), Json::Str(s("302")))]))])
            );
        }
        _ => panic!("expected a create"),
    }
}

#[test]
fn create_needs_a_summary_and_projects() {
    let m = MockJira::new();
    let opts = m.create_targets().unwrap();
    let p = create_dialog_of(&opts, "OPS|Task", "  ", "d").unwrap().pending;
    match p.submit() {
        Submission::Invalid(why) => assert_eq!(why, "Summary is required to create an issue."),
        _ => panic!("expected a refusal"),
    }
    let mut p = create_dialog_of(&opts, "OPS|Task", "", "").unwrap().pending;
    p.field_changed(1, "Do it");
    p.field_changed(2, "details");
    match p.submit() {
        Submission::Create { project, issue_type, description, .. } => {
            assert_eq!(project, "OPS");
            assert_eq!(issue_type, "Task");
            assert_eq!(description, Some(s("details")));
        }
        _ => panic!("expected a create"),
    }
    assert_eq!(create_dialog_of(&Vec::new(), "", "", "").err(), Some(s("No projects available to create issues in.")));
}

#[test]
fn comment_box_sends_reply_or_comment() {
    assert!(comment_action("X-1", "  \n", true).is_none());
    match comment_action("X-1", " hi ", true) {
        Some(CommentAction::Reply { key, body }) => {
            assert_eq!(key, "X-1");
            assert_eq!(body, " hi ");
        }
        _ => panic!("expected a reply"),
    }
    assert!(matches!(comment_action("X-1", "hi", false), Some(CommentAction::Comment { .. })));
}

#[test]
fn app_start_choice() {
    assert!(matches!(start(true, true), Start::Demo));
    assert!(matches!(start(false, true), Start::Live));
    assert!(matches!(start(false, false), Start::Login));
}
