use lient_core::model::{
    AllowedValue, FieldSchema, Fields, Issue, NamedRef, SearchResult, Transition, TransitionField,
    TransitionsResponse, User,
};

fn named(name: &str, id: &str) -> Option<NamedRef> {
    Some(NamedRef { name: name.to_string(), id: id.to_string() })
}

fn user(display_name: &str, account_id: &str) -> User {
    User { display_name: display_name.to_string(), account_id: account_id.to_string(), name: String::new(), email: String::new() }
}

#[test]
fn parses_search_result() {
    let mut f = Fields::default();
    f.summary = "Fix the login bug".to_string();
    f.status = named("In Progress", "3");
    f.assignee = Some(user("Alice Smith", "a1"));
    f.priority = named("High", "2");
    f.issuetype = named("Bug", "10004");
    f.labels = vec!["urgent".to_string(), "auth".to_string()];
    f.duedate = Some("2026-06-30".to_string());
    let first = Issue { key: "ENG-12".to_string(), id: "1001".to_string(), fields: f };
    let mut g = Fields::default();
    g.summary = "No assignee here".to_string();
    let second = Issue { key: "ENG-13".to_string(), id: String::new(), fields: g };
    let r = SearchResult { issues: vec![first, second], total: 2, start_at: 0 };
    assert_eq!(r.total, 2);
    assert_eq!(r.issues.len(), 2);

    let i = &r.issues[0];
    assert_eq!(i.key, "ENG-12");
    assert_eq!(i.summary(), "Fix the login bug");
    assert_eq!(i.status(), "In Progress");
    assert_eq!(i.assignee(), "Alice Smith");
    assert_eq!(i.priority(), "High");
    assert_eq!(i.issue_type(), "Bug");
    assert_eq!(i.fields.labels, vec!["urgent", "auth"]);
    assert_eq!(i.fields.duedate.as_deref(), Some("2026-06-30"));

    // missing optional fields degrade gracefully, never panic
    assert_eq!(r.issues[1].assignee(), "Unassigned");
    assert_eq!(r.issues[1].status(), "");
}

#[test]
fn parses_transitions_with_required_fields() {
    let start = Transition { id: "21".to_string(), name: "Start Progress".to_string(), to: named("In Progress", ""), fields: Vec::new() };
    let mut resolution = TransitionField::default();
    resolution.required = true;
    resolution.name = "Resolution".to_string();
    let mut comment = TransitionField::default();
    comment.name = "Comment".to_string();
    let done = Transition {
        id: "31".to_string(),
        name: "Done".to_string(),
        to: named("Done", ""),
        fields: vec![("resolution".to_string(), resolution), ("comment".to_string(), comment)],
    };
    let r = TransitionsResponse { transitions: vec![start, done] };
    assert_eq!(r.transitions.len(), 2);
    let done = &r.transitions[1];
    assert_eq!(done.name, "Done");
    assert_eq!(done.to.as_ref().unwrap().name, "Done");
    assert!(done.field("resolution").unwrap().required);
    assert!(!done.field("comment").unwrap().required);
    assert!(done.field("nope").is_none());
}

#[test]
fn labels_fall_back_to_value() {
    let named_value = AllowedValue { id: "1".to_string(), name: "Done".to_string(), value: "x".to_string() };
    let custom = AllowedValue { id: "2".to_string(), name: String::new(), value: "High".to_string() };
    assert_eq!(named_value.label(), "Done");
    assert_eq!(custom.label(), "High");
}

#[test]
fn field_kinds() {
    let mut f = TransitionField::default();
    assert!(!f.has_options());
    assert!(!f.is_array());
    f.schema = FieldSchema { type_: "array".to_string(), items: "string".to_string() };
    f.allowed_values.push(AllowedValue::default());
    assert!(f.has_options());
    assert!(f.is_array());
}

#[test]
fn clones_are_equal_in_content() {
    let mut f = Fields::default();
    f.summary = "S".to_string();
    f.labels = vec!["a".to_string()];
    let i = Issue { key: "K-1".to_string(), id: "1".to_string(), fields: f };
    let j = i.clone();
    assert_eq!(j.key, "K-1");
    assert_eq!(j.summary(), "S");
    assert_eq!(j.fields.labels, vec!["a"]);
}
