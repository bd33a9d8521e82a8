use lient_core::cli::{
    arg, list_report_of, parse_command, split_demo, transitions_report_of, truncate, view_report_of,
    whoami_line_of, Command,
};
use lient_core::mock::MockJira;
use lient_core::Jira;
use lient_core::model::User;

fn args(xs: &[&str]) -> Vec<String> {
    xs.iter().map(|x| x.to_string()).collect()
}

#[test]
fn truncate_marks_cut_text() {
    assert_eq!(truncate("In Progress", 13), "In Progress");
    assert_eq!(truncate("Waiting for customer", 13), "Waiting for …");
    assert_eq!(truncate("Medium", 6), "Medium");
    assert_eq!(truncate("Highest", 6), "Highe…");
    assert_eq!(truncate("abc", 0), "…");
    assert_eq!(truncate("héllo", 3), "hé…");
}

#[test]
fn arg_reports_usage() {
    let a = args(&["view", "ENG-1"]);
    assert_eq!(arg(&a, 1, "view <KEY>"), Ok("ENG-1"));
    assert_eq!(arg(&a, 2, "view <KEY>"), Err("usage: lient view <KEY>".to_string()));
}

#[test]
fn demo_switch_is_split_off() {
    let (demo, rest) = split_demo(&args(&["--demo", "view", "ACME-1", "--demo"]), false);
    assert!(demo);
    assert_eq!(rest, args(&["view", "ACME-1"]));
    let (demo, rest) = split_demo(&args(&["list"]), false);
    assert!(!demo);
    assert_eq!(rest, args(&["list"]));
    let (demo, _) = split_demo(&args(&[]), true);
    assert!(demo);
}

#[test]
fn commands_parse() {
    assert!(matches!(parse_command(&args(&[])), Ok(Command::List)));
    assert!(matches!(parse_command(&args(&["list"])), Ok(Command::List)));
    assert!(matches!(parse_command(&args(&["whoami"])), Ok(Command::Whoami)));
    match parse_command(&args(&["view", "ENG-12"])) {
        Ok(Command::View(k)) => assert_eq!(k, "ENG-12"),
        _ => panic!("expected view"),
    }
    match parse_command(&args(&["transitions", "ENG-12"])) {
        Ok(Command::Transitions(k)) => assert_eq!(k, "ENG-12"),
        _ => panic!("expected transitions"),
    }
    match parse_command(&args(&["open", "ENG-12"])) {
        Ok(Command::Open(k)) => assert_eq!(k, "ENG-12"),
        _ => panic!("expected open"),
    }
    match parse_command(&args(&["comment", "ENG-12", "on", "it"])) {
        Ok(Command::Comment(k, b)) => {
            assert_eq!(k, "ENG-12");
            assert_eq!(b, "on it");
        }
        _ => panic!("expected comment"),
    }
}

#[test]
fn command_errors() {
    assert_eq!(parse_command(&args(&["view"])).err(), Some("usage: lient view <KEY>".to_string()));
    assert_eq!(parse_command(&args(&["transitions"])).err(), Some("usage: lient transitions <KEY>".to_string()));
    assert_eq!(parse_command(&args(&["open"])).err(), Some("usage: lient open <KEY>".to_string()));
    assert_eq!(parse_command(&args(&["comment"])).err(), Some("usage: lient comment <KEY> <text>".to_string()));
    assert_eq!(
        parse_command(&args(&["comment", "ENG-1"])).err(),
        Some("comment <KEY> <text> — text required".to_string())
    );
    assert_eq!(
        parse_command(&args(&["frob"])).err(),
        Some("unknown command 'frob' — try: whoami | list | view | transitions | comment | open".to_string())
    );
}

#[test]
fn list_report_lines() {
    let m = MockJira::new();
    let lines = list_report_of(&m.my_issues(50).unwrap());
    assert_eq!(lines.len(), 3);
    assert_eq!(lines[0], "ACME-101   In Progress   High     Draft the Q3 partnership agreement");
    assert_eq!(lines[1], "ACME-102   To Do         Medium   Review NDA redlines from counterparty");
    assert_eq!(list_report_of(&Vec::new()), vec!["No open issues assigned to you. 🎉".to_string()]);
}

#[test]
fn view_report_lines() {
    let m = MockJira::new();
    let i = m.issue("ACME-101").unwrap();
    let lines = view_report_of(&i);
    assert_eq!(lines[0], "ACME-101  [In Progress]  Draft the Q3 partnership agreement");
    assert_eq!(lines[1], "type: Task   priority: High   assignee: Marc Jones");
    assert_eq!(lines[2], "\nPrepare the first draft of the partnership agreement for review by the GC.\n");
    assert_eq!(lines[3], "--- 1 comment(s) ---");
    assert_eq!(
        lines[4],
        "[2026-06-02T10:15:00.000+0000] Dana Lee: Please align the indemnification clause with the master template."
    );
    assert_eq!(lines.len(), 5);
}

#[test]
fn transitions_report_lines() {
    let mut m = MockJira::new();
    let lines = transitions_report_of(&m.transitions("ACME-102").unwrap());
    assert_eq!(lines, vec!["21   Start Progress → In Progress".to_string()]);
    m.transition("ACME-102", "21", lient_core::json::Json::Null).unwrap();
    let lines = transitions_report_of(&m.transitions("ACME-102").unwrap());
    assert_eq!(lines[0], "31   Done → Done  (requires: resolution)");
    assert_eq!(lines[1], "11   Back to To Do → To Do");
}

#[test]
fn whoami_prefers_account_id() {
    let u = User { display_name: "Marc".to_string(), account_id: "me".to_string(), name: "marc".to_string(), email: "m@x".to_string() };
    assert_eq!(whoami_line_of(&u), "Connected as Marc <m@x>  [me]");
    let v = User { account_id: String::new(), ..u };
    assert_eq!(whoami_line_of(&v), "Connected as Marc <m@x>  [marc]");
}
