use lient_core::api::JiraError;
use lient_core::json::Json;
use lient_core::mock::MockJira;
use lient_core::Jira;

#[test]
fn mock_serves_and_mutates() {
    let mut m = MockJira::new();
    assert_eq!(m.myself().unwrap().display_name, "Marc Jones");

    // my_issues excludes Done
    let open = m.my_issues(50).unwrap();
    assert_eq!(open.len(), 3);
    assert!(open.iter().all(|i| i.status() != "Done"));

    // comment write is reflected on re-read
    m.add_comment("ACME-102", "Looks good to me.").unwrap();
    let i = m.issue("ACME-102").unwrap();
    assert_eq!(i.fields.comment.unwrap().comments.last().unwrap().body, "Looks good to me.");

    // transition To Do -> In Progress
    let ts = m.transitions("ACME-102").unwrap();
    assert_eq!(ts[0].name, "Start Progress");
    m.transition("ACME-102", "21", Json::Null).unwrap();
    assert_eq!(m.issue("ACME-102").unwrap().status(), "In Progress");

    // the Done transition advertises a required field
    let ts = m.transitions("ACME-102").unwrap();
    let done = ts.iter().find(|t| t.name == "Done").unwrap();
    assert!(done.field("resolution").unwrap().required);

    // create returns a fresh key that then exists
    let key = m.create_issue("ACME", "Task", "New thing", Some("desc"), Json::Null).unwrap();
    assert_eq!(key, "ACME-105");
    assert_eq!(m.issue(&key).unwrap().summary(), "New thing");
}

#[test]
fn mock_unknown_keys_are_errors() {
    let mut m = MockJira::new();
    assert_eq!(m.issue("NOPE-1").unwrap_err(), JiraError::NoSuchIssue("NOPE-1".to_string()));
    assert_eq!(m.transitions("NOPE-1").unwrap_err(), JiraError::NoSuchIssue("NOPE-1".to_string()));
    assert_eq!(m.transition("NOPE-1", "21", Json::Null), Err(JiraError::NoSuchIssue("NOPE-1".to_string())));
    assert_eq!(m.add_comment("NOPE-1", "x").unwrap_err(), JiraError::NoSuchIssue("NOPE-1".to_string()));
    assert_eq!(m.assign("NOPE-1", "sam"), Err(JiraError::NoSuchIssue("NOPE-1".to_string())));
    assert_eq!(m.update_issue("NOPE-1", Json::Null), Err(JiraError::NoSuchIssue("NOPE-1".to_string())));
    assert_eq!(JiraError::NoSuchIssue("NOPE-1".to_string()).message(), "no such issue NOPE-1");
}

#[test]
fn mock_rejects_transitions_the_workflow_lacks() {
    let mut m = MockJira::new();
    // ACME-102 is To Do: only "21" (Start Progress) is offered
    let r = m.transition("ACME-102", "31", Json::Null);
    assert_eq!(r, Err(JiraError::TransitionNotAvailable("31".to_string())));
    assert_eq!(r.unwrap_err().message(), "transition 31 not available");
    assert_eq!(m.issue("ACME-102").unwrap().status(), "To Do");
}

#[test]
fn mock_workflow_goes_round() {
    let mut m = MockJira::new();
    m.transition("ACME-103", "21", Json::Null).unwrap();
    assert_eq!(m.issue("ACME-103").unwrap().status(), "In Progress");
    m.transition("ACME-103", "31", Json::Null).unwrap();
    assert_eq!(m.issue("ACME-103").unwrap().status(), "Done");
    let ts = m.transitions("ACME-103").unwrap();
    assert_eq!(ts.len(), 1);
    assert_eq!(ts[0].name, "Reopen");
    m.transition("ACME-103", "11", Json::Null).unwrap();
    assert_eq!(m.issue("ACME-103").unwrap().status(), "To Do");
    // Done issues drop out of My Work
    m.transition("ACME-101", "31", Json::Null).unwrap();
    assert_eq!(m.my_issues(50).unwrap().len(), 2);
    assert_eq!(m.my_issues(1).unwrap().len(), 1);
}

#[test]
fn mock_update_and_assign_write_through() {
    let mut m = MockJira::new();
    let fields = Json::Object(vec![
        ("summary".to_string(), Json::Str("Renamed".to_string())),
        ("duedate".to_string(), Json::Str("2026-07-01".to_string())),
        ("priority".to_string(), Json::Object(vec![("id".to_string(), Json::Str("2".to_string()))])),
        ("labels".to_string(), Json::Array(vec![Json::Str("a".to_string()), Json::Null, Json::Str("b".to_string())])),
    ]);
    m.update_issue("ACME-102", fields).unwrap();
    let i = m.issue("ACME-102").unwrap();
    assert_eq!(i.summary(), "Renamed");
    assert_eq!(i.fields.duedate.as_deref(), Some("2026-07-01"));
    assert_eq!(i.priority(), "High");
    assert_eq!(i.fields.labels, vec!["a".to_string(), "b".to_string()]);
    // other issues are untouched
    assert_eq!(m.issue("ACME-101").unwrap().summary(), "Draft the Q3 partnership agreement");

    m.assign("ACME-102", "dana").unwrap();
    assert_eq!(m.issue("ACME-102").unwrap().assignee(), "dana");

    // an unknown priority id reads as Medium
    let f = Json::Object(vec![("priority".to_string(), Json::Object(vec![("id".to_string(), Json::Str("9".to_string()))]))]);
    m.update_issue("ACME-102", f).unwrap();
    assert_eq!(m.issue("ACME-102").unwrap().priority(), "Medium");
}

#[test]
fn mock_comments_are_tagged_and_counted() {
    let mut m = MockJira::new();
    let c = m.add_comment("ACME-101", "first").unwrap();
    assert_eq!(c.id, "c9001");
    assert_eq!(c.author.as_ref().unwrap().display_name, "Marc Jones");
    m.add_request_comment("ACME-101", "hi", true).unwrap();
    m.add_request_comment("ACME-101", "psst", false).unwrap();
    let page = m.issue("ACME-101").unwrap().fields.comment.unwrap();
    assert_eq!(page.total, 4);
    assert_eq!(page.comments[2].body, "[Reply to customer] hi");
    assert_eq!(page.comments[3].body, "[Internal note] psst");
}

#[test]
fn mock_metadata_and_search() {
    let m = MockJira::new();
    let targets = m.create_targets().unwrap();
    assert_eq!(targets.len(), 4);
    assert_eq!(targets[1].issuetype_name, "Matter");
    assert_eq!(targets[1].required[0].0, "customfield_20000");
    let users = m.assignable_users("ACME-101").unwrap();
    assert_eq!(users.len(), 3);
    assert_eq!(users[2].account_id, "sam");
    let meta = m.edit_meta("ACME-101").unwrap();
    let keys: Vec<&str> = meta.iter().map(|(k, _)| k.as_str()).collect();
    assert_eq!(keys, vec!["summary", "assignee", "priority", "duedate", "labels", "customfield_10010"]);
    let r = m.search("anything", 2).unwrap();
    assert_eq!(r.issues.len(), 2);
    assert_eq!(r.total, 4);
    assert_eq!(r.start_at, 0);
    assert_eq!(m.browse_url("ACME-1"), "https://demo.atlassian.net/browse/ACME-1");
}

#[test]
fn mock_creates_count_up() {
    let mut m = MockJira::new();
    let a = m.create_issue("OPS", "Task", "one", None, Json::Null).unwrap();
    let b = m.create_issue("ACME", "Bug", "two", Some("d"), Json::Null).unwrap();
    assert_eq!(a, "OPS-105");
    assert_eq!(b, "ACME-106");
    let i = m.issue("OPS-105").unwrap();
    assert_eq!(i.id, "2105");
    assert_eq!(i.status(), "To Do");
    assert_eq!(i.issue_type(), "Task");
    assert_eq!(i.assignee(), "Marc Jones");
    assert!(i.fields.description.is_none());
    assert_eq!(m.issue("ACME-106").unwrap().fields.description.as_deref(), Some("d"));
    assert_eq!(m.my_issues(50).unwrap().len(), 5);
}

#[test]
fn demo_field_lists_hold_each_key_once() {
    let m = MockJira::new();
    let keys: Vec<String> = m.edit_meta("ACME-101").unwrap().into_iter().map(|(k, _)| k).collect();
    let mut distinct = keys.clone();
    distinct.sort();
    distinct.dedup();
    assert_eq!(distinct.len(), keys.len());
    for status in ["To Do", "In Progress", "Done", "Blocked"] {
        for t in lient_core::mock::transitions_for(status) {
            assert!(t.fields.windows(2).all(|w| w[0].0 < w[1].0));
        }
    }
    for o in m.create_targets().unwrap() {
        assert!(o.required.windows(2).all(|w| w[0].0 < w[1].0));
    }
    let done = lient_core::mock::transitions_for("In Progress");
    assert_eq!(done[0].fields.len(), 1);
    assert_eq!(done[0].fields[0].0, "resolution");
}
