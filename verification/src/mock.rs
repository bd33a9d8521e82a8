//! An in-memory Jira for demo mode, offline development and tests. It serves a
//! handful of realistic issues; writes (comment / transition / assign / create /
//! update) change the in-memory state and show on the next read.
use vstd::prelude::*;
use crate::api::{Jira, JiraError};
use crate::json::{string_members, strings_in, Json};
use crate::model::{
    AllowedValue, AllowedValueView, Comment, CommentPage, CommentPageView, CommentView,
    CreateOption, CreateOptionView, FieldSchema, FieldSchemaView, Fields, FieldsView, Issue,
    IssueView, NamedRef, NamedRefView, SearchResult, Transition, TransitionField,
    TransitionFieldView, TransitionView, User, UserView, keys_ascending, keys_unique, status_name,
};
use crate::text::{
    decimal, lemma_decimal_digits, lemma_decimal_injective, owned, push_decimal, push_str, str_eq,
};

verus! {

/// `{ name, id }` reference value.
pub open spec fn nr(name: Seq<char>, id: Seq<char>) -> NamedRefView {
    NamedRefView { name, id }
}

/// A user known only by display name and account id.
pub open spec fn who(display_name: Seq<char>, account_id: Seq<char>) -> UserView {
    UserView { display_name, account_id, name: Seq::empty(), email: Seq::empty() }
}

fn named(name: &str, id: &str) -> (r: NamedRef)
    ensures
        r.deep_view() == nr(name@, id@),
{
    NamedRef { name: owned(name), id: owned(id) }
}

fn person(display_name: &str, account_id: &str) -> (r: User)
    ensures
        r.deep_view() == who(display_name@, account_id@),
{
    User {
        display_name: owned(display_name),
        account_id: owned(account_id),
        name: String::new(),
        email: String::new(),
    }
}

/// The demo issues the mock starts with.
pub open spec fn fixture_view() -> Seq<IssueView> {
    seq![
        IssueView {
            key: "ACME-101"@,
            id: "1001"@,
            fields: FieldsView {
                summary: "Draft the Q3 partnership agreement"@,
                status: Some(nr("In Progress"@, "3"@)),
                assignee: Some(who("Marc Jones"@, "me"@)),
                reporter: None,
                priority: Some(nr("High"@, "2"@)),
                issuetype: Some(nr("Task"@, "10001"@)),
                labels: seq!["legal"@, "q3"@],
                updated: Seq::empty(),
                created: Seq::empty(),
                duedate: Some("2026-06-20"@),
                description: Some("Prepare the first draft of the partnership agreement for review by the GC."@),
                comment: Some(CommentPageView { comments: seq![CommentView { id: "5001"@, author: Some(who("Dana Lee"@, "dana"@)), body: "Please align the indemnification clause with the master template."@, created: "2026-06-02T10:15:00.000+0000"@ }], total: 1 }),
            },
        },
        IssueView {
            key: "ACME-102"@,
            id: "1002"@,
            fields: FieldsView {
                summary: "Review NDA redlines from counterparty"@,
                status: Some(nr("To Do"@, "1"@)),
                assignee: Some(who("Marc Jones"@, "me"@)),
                reporter: None,
                priority: Some(nr("Medium"@, "3"@)),
                issuetype: Some(nr("Bug"@, "10004"@)),
                labels: seq!["nda"@],
                updated: Seq::empty(),
                created: Seq::empty(),
                duedate: Some("2026-06-14"@),
                description: Some("Counterparty returned redlines on sections 4 and 7. Compare to our fallback positions."@),
                comment: Some(CommentPageView { comments: seq![], total: 0 }),
            },
        },
        IssueView {
            key: "ACME-103"@,
            id: "1003"@,
            fields: FieldsView {
                summary: "Brief the team on the new data-retention policy"@,
                status: Some(nr("To Do"@, "1"@)),
                assignee: Some(who("Marc Jones"@, "me"@)),
                reporter: None,
                priority: Some(nr("Low"@, "4"@)),
                issuetype: Some(nr("Task"@, "10001"@)),
                labels: seq!["policy"@, "privacy"@],
                updated: Seq::empty(),
                created: Seq::empty(),
                duedate: None,
                description: Some("Schedule a 30-min session and circulate the one-pager beforehand."@),
                comment: Some(CommentPageView { comments: seq![], total: 0 }),
            },
        },
        IssueView {
            key: "ACME-104"@,
            id: "1004"@,
            fields: FieldsView {
                summary: "Close out the vendor onboarding checklist"@,
                status: Some(nr("Done"@, "5"@)),
                assignee: Some(who("Marc Jones"@, "me"@)),
                reporter: None,
                priority: Some(nr("Medium"@, "3"@)),
                issuetype: Some(nr("Task"@, "10001"@)),
                labels: seq!["vendor"@],
                updated: Seq::empty(),
                created: Seq::empty(),
                duedate: None,
                description: Some("All items signed off."@),
                comment: Some(CommentPageView { comments: seq![], total: 0 }),
            },
        },
    ]
}

/// Builds the demo issues.
fn fixture_issues() -> (r: Vec<Issue>)
    ensures
        r.deep_view() == fixture_view(),
{
    let i0 = Issue {
            key: owned("ACME-101"),
            id: owned("1001"),
            fields: Fields {
                summary: owned("Draft the Q3 partnership agreement"),
                status: Some(named("In Progress", "3")),
                assignee: Some(person("Marc Jones", "me")),
                reporter: None,
                priority: Some(named("High", "2")),
                issuetype: Some(named("Task", "10001")),
                labels: vec![owned("legal"), owned("q3")],
                updated: String::new(),
                created: String::new(),
                duedate: Some(owned("2026-06-20")),
                description: Some(owned("Prepare the first draft of the partnership agreement for review by the GC.")),
                comment: Some(CommentPage { comments: vec![Comment { id: owned("5001"), author: Some(person("Dana Lee", "dana")), body: owned("Please align the indemnification clause with the master template."), created: owned("2026-06-02T10:15:00.000+0000") }], total: 1 }),
            },
        };
    let i1 = Issue {
            key: owned("ACME-102"),
            id: owned("1002"),
            fields: Fields {
                summary: owned("Review NDA redlines from counterparty"),
                status: Some(named("To Do", "1")),
                assignee: Some(person("Marc Jones", "me")),
                reporter: None,
                priority: Some(named("Medium", "3")),
                issuetype: Some(named("Bug", "10004")),
                labels: vec![owned("nda")],
                updated: String::new(),
                created: String::new(),
                duedate: Some(owned("2026-06-14")),
                description: Some(owned("Counterparty returned redlines on sections 4 and 7. Compare to our fallback positions.")),
                comment: Some(CommentPage { comments: vec![], total: 0 }),
            },
        };
    let i2 = Issue {
            key: owned("ACME-103"),
            id: owned("1003"),
            fields: Fields {
                summary: owned("Brief the team on the new data-retention policy"),
                status: Some(named("To Do", "1")),
                assignee: Some(person("Marc Jones", "me")),
                reporter: None,
                priority: Some(named("Low", "4")),
                issuetype: Some(named("Task", "10001")),
                labels: vec![owned("policy"), owned("privacy")],
                updated: String::new(),
                created: String::new(),
                duedate: None,
                description: Some(owned("Schedule a 30-min session and circulate the one-pager beforehand.")),
                comment: Some(CommentPage { comments: vec![], total: 0 }),
            },
        };
    let i3 = Issue {
            key: owned("ACME-104"),
            id: owned("1004"),
            fields: Fields {
                summary: owned("Close out the vendor onboarding checklist"),
                status: Some(named("Done", "5")),
                assignee: Some(person("Marc Jones", "me")),
                reporter: None,
                priority: Some(named("Medium", "3")),
                issuetype: Some(named("Task", "10001")),
                labels: vec![owned("vendor")],
                updated: String::new(),
                created: String::new(),
                duedate: None,
                description: Some(owned("All items signed off.")),
                comment: Some(CommentPage { comments: vec![], total: 0 }),
            },
        };
    assert(i0.fields.labels.deep_view() =~= fixture_view()[0].fields.labels);
    assert(i0.fields.comment->0.comments.deep_view() =~= fixture_view()[0].fields.comment->0.comments);
    assert(i0.deep_view() == fixture_view()[0]);
    assert(i1.fields.labels.deep_view() =~= fixture_view()[1].fields.labels);
    assert(i1.fields.comment->0.comments.deep_view() =~= fixture_view()[1].fields.comment->0.comments);
    assert(i1.deep_view() == fixture_view()[1]);
    assert(i2.fields.labels.deep_view() =~= fixture_view()[2].fields.labels);
    assert(i2.fields.comment->0.comments.deep_view() =~= fixture_view()[2].fields.comment->0.comments);
    assert(i2.deep_view() == fixture_view()[2]);
    assert(i3.fields.labels.deep_view() =~= fixture_view()[3].fields.labels);
    assert(i3.fields.comment->0.comments.deep_view() =~= fixture_view()[3].fields.comment->0.comments);
    assert(i3.deep_view() == fixture_view()[3]);
    let r = vec![i0, i1, i2, i3];
    assert(r.deep_view() =~= fixture_view());
    r
}

/// The signed-in demo user.
pub open spec fn demo_user() -> UserView {
    UserView {
        display_name: "Marc Jones"@,
        account_id: "me"@,
        name: "marc"@,
        email: "marc@example.com"@,
    }
}


/// An allowed value known by id and name.
pub open spec fn av(id: Seq<char>, name: Seq<char>) -> AllowedValueView {
    AllowedValueView { id, name, value: Seq::empty() }
}

/// A schema with a type and no item type.
pub open spec fn schema(type_: Seq<char>) -> FieldSchemaView {
    FieldSchemaView { type_, items: Seq::empty() }
}

/// The required `resolution` pick-list of the Done transition.
pub open spec fn resolution_field() -> TransitionFieldView {
    TransitionFieldView {
        required: true,
        name: "Resolution"@,
        schema: schema("resolution"@),
        allowed_values: seq![
            av("10000"@, "Done"@),
            av("10001"@, "Won't Do"@),
            av("10002"@, "Duplicate"@),
        ],
    }
}

/// A transition with a target status.
pub open spec fn tv(id: Seq<char>, name: Seq<char>, to: NamedRefView, fields: Seq<(Seq<char>, TransitionFieldView)>) -> TransitionView {
    TransitionView { id, name, to: Some(to), fields }
}

/// The toy workflow: To Do → In Progress → Done, with a required `resolution`
/// on the Done transition; Done can be reopened.
pub open spec fn workflow(status: Seq<char>) -> Seq<TransitionView> {
    let start = tv("21"@, "Start Progress"@, nr("In Progress"@, "3"@), seq![]);
    let backlog = tv("11"@, "Back to To Do"@, nr("To Do"@, "1"@), seq![]);
    let done = tv("31"@, "Done"@, nr("Done"@, "5"@), seq![("resolution"@, resolution_field())]);
    let reopen = tv("11"@, "Reopen"@, nr("To Do"@, "1"@), seq![]);
    if status == "To Do"@ {
        seq![start]
    } else if status == "In Progress"@ {
        seq![done, backlog]
    } else if status == "Done"@ {
        seq![reopen]
    } else {
        seq![start]
    }
}

/// The status that the first transition with id `tid` leads to.
pub open spec fn target_of(ts: Seq<TransitionView>, tid: Seq<char>) -> Option<NamedRefView>
    decreases ts.len(),
{
    if ts.len() == 0 {
        None
    } else if ts[0].id == tid {
        ts[0].to
    } else {
        target_of(ts.skip(1), tid)
    }
}

/// Position that a lookup of `key` finds.
pub open spec fn key_pos(issues: Seq<IssueView>, key: Seq<char>) -> int {
    choose|i: int| first_at(issues, key, i)
}

/// `m` with the issue that a lookup of `key` finds replaced by `i`.
pub open spec fn with_issue(m: MockView, key: Seq<char>, i: IssueView) -> MockView {
    MockView { issues: m.issues.update(key_pos(m.issues, key), i), ..m }
}

/// `i` moved to status `to`.
pub open spec fn with_status(i: IssueView, to: NamedRefView) -> IssueView {
    IssueView { fields: FieldsView { status: Some(to), ..i.fields }, ..i }
}

/// The status a transition `tid` of issue `key` leads to, when both exist.
pub open spec fn transition_target(m: MockView, key: Seq<char>, tid: Seq<char>) -> Option<NamedRefView> {
    match lookup(m.issues, key) {
        Some(i) => target_of(workflow(status_name(i)), tid),
        None => None,
    }
}

pub open spec fn comments_of(p: Option<CommentPageView>) -> Seq<CommentView> {
    match p {
        Some(p) => p.comments,
        None => seq![],
    }
}

/// The comment the mock records for `body` on issue `i`.
pub open spec fn new_comment(i: IssueView, me: UserView, body: Seq<char>) -> CommentView {
    CommentView {
        id: seq!['c'] + decimal((comments_of(i.fields.comment).len() + 9000) as nat),
        author: Some(me),
        body,
        created: "2026-06-04T12:00:00.000+0000"@,
    }
}

pub open spec fn with_comment(i: IssueView, c: CommentView) -> IssueView {
    let cs = comments_of(i.fields.comment).push(c);
    IssueView {
        fields: FieldsView {
            comment: Some(CommentPageView { comments: cs, total: (cs.len() % 4294967296) as u32 }),
            ..i.fields
        },
        ..i
    }
}

/// The state after commenting `body` on the issue keyed `key` (which exists).
pub open spec fn commented(m: MockView, key: Seq<char>, body: Seq<char>) -> MockView {
    let i = lookup(m.issues, key)->0;
    with_issue(m, key, with_comment(i, new_comment(i, m.me, body)))
}

/// Tag that marks a service-desk comment as public reply or internal note.
pub open spec fn visibility_tag(public: bool) -> Seq<char> {
    if public {
        "[Reply to customer] "@
    } else {
        "[Internal note] "@
    }
}

/// `i` assigned to `who` (used as display name, account id and name).
pub open spec fn with_assignee(i: IssueView, who: Seq<char>) -> IssueView {
    IssueView {
        fields: FieldsView {
            assignee: Some(UserView {
                display_name: who,
                account_id: who,
                name: who,
                email: Seq::empty(),
            }),
            ..i.fields
        },
        ..i
    }
}

/// Priority name the mock gives a priority id.
pub open spec fn priority_for(id: Seq<char>) -> Seq<char> {
    if id == "2"@ {
        "High"@
    } else if id == "3"@ {
        "Medium"@
    } else if id == "4"@ {
        "Low"@
    } else {
        "Medium"@
    }
}

/// The string under `key` of an object.
pub open spec fn str_at(f: Json, key: Seq<char>) -> Option<Seq<char>> {
    match f.get_of(key) {
        Some(v) => v.str_of(),
        None => None,
    }
}

/// The priority id an update object carries (`{"priority": {"id": ..}}`).
pub open spec fn priority_id_in(f: Json) -> Option<Seq<char>> {
    match f.get_of("priority"@) {
        Some(p) => str_at(p, "id"@),
        None => None,
    }
}

/// The labels an update object carries: the strings of its `labels` array.
pub open spec fn labels_in(f: Json) -> Option<Seq<Seq<char>>> {
    match f.get_of("labels"@) {
        Some(Json::Array(a)) => Some(string_members(a@)),
        _ => None,
    }
}

/// Issue `i` after an update with the `fields` object: summary, due date,
/// priority (by id) and labels are taken over; everything else is ignored.
pub open spec fn updated(i: IssueView, f: Json) -> IssueView {
    IssueView {
        fields: FieldsView {
            summary: match str_at(f, "summary"@) {
                Some(s) => s,
                None => i.fields.summary,
            },
            duedate: match str_at(f, "duedate"@) {
                Some(d) => Some(d),
                None => i.fields.duedate,
            },
            priority: match priority_id_in(f) {
                Some(id) => Some(nr(priority_for(id), id)),
                None => i.fields.priority,
            },
            labels: match labels_in(f) {
                Some(l) => l,
                None => i.fields.labels,
            },
            ..i.fields
        },
        ..i
    }
}

/// An update that sets the priority to the id of one of the choices the demo
/// edit metadata offers for `priority` reads back with that choice: its name
/// and its id (2 is High, 3 is Medium, 4 is Low).
pub proof fn law_priority_update_takes_the_offered_choice(i: IssueView, f: Json, e: int, k: int)
    requires
        0 <= e < demo_edit_meta().len(),
        demo_edit_meta()[e].0 == "priority"@,
        0 <= k < demo_edit_meta()[e].1.allowed_values.len(),
        priority_id_in(f) == Some(demo_edit_meta()[e].1.allowed_values[k].id),
    ensures
        updated(i, f).fields.priority == Some(
            nr(demo_edit_meta()[e].1.allowed_values[k].name, demo_edit_meta()[e].1.allowed_values[k].id),
        ),
{
    reveal_strlit("priority");
    reveal_strlit("summary");
    reveal_strlit("assignee");
    reveal_strlit("duedate");
    reveal_strlit("labels");
    reveal_strlit("customfield_10010");
    reveal_strlit("2");
    reveal_strlit("3");
    reveal_strlit("4");
    let m = demo_edit_meta();
    assert(m[0].0[0] == 's' && m[1].0[0] == 'a' && m[3].0[0] == 'd' && m[4].0[0] == 'l' && m[5].0[0] == 'c');
    assert("priority"@[0] == 'p');
    assert(e == 2);
    let vs = m[2].1.allowed_values;
    assert(vs[0].id == "2"@ && vs[1].id == "3"@ && vs[2].id == "4"@);
    assert("3"@ != "2"@ && "4"@ != "2"@ && "4"@ != "3"@) by {
        assert("3"@[0] != "2"@[0] && "4"@[0] != "2"@[0] && "4"@[0] != "3"@[0]);
    }
}

/// An update with a priority id the demo edit metadata does not offer keeps
/// that id and reads back as Medium.
pub proof fn law_priority_update_with_unoffered_id(i: IssueView, f: Json, id: Seq<char>)
    requires
        priority_id_in(f) == Some(id),
        forall|e: int, k: int| 0 <= e < demo_edit_meta().len() && demo_edit_meta()[e].0 == "priority"@ && 0 <= k
            < demo_edit_meta()[e].1.allowed_values.len() ==> #[trigger] demo_edit_meta()[e].1.allowed_values[k].id != id,
    ensures
        updated(i, f).fields.priority == Some(nr("Medium"@, id)),
{
    let m = demo_edit_meta();
    let vs = m[2].1.allowed_values;
    assert(m[2].0 == "priority"@);
    assert(vs[0].id != id && vs[1].id != id && vs[2].id != id);
}

/// A key made of a project key, `-` and a number.
pub open spec fn numbered_key(project: Seq<char>, n: nat) -> Seq<char> {
    project + seq!['-'] + decimal(n)
}

/// Key of the next issue created in `project`.
pub open spec fn new_key(project: Seq<char>, next: u32) -> Seq<char> {
    numbered_key(project, next as nat)
}

/// `key` carries a number below `next`.
pub open spec fn numbered_below(key: Seq<char>, next: u32) -> bool {
    exists|p: Seq<char>, n: nat| n < next && key == #[trigger] numbered_key(p, n)
}

/// Every issue's key carries a number below the next one to be given out.
pub open spec fn keys_numbered(m: MockView) -> bool {
    forall|i: int| 0 <= i < m.issues.len() ==> numbered_below(#[trigger] m.issues[i].key, m.next)
}

/// Keys that end in different numbers differ.
pub proof fn lemma_numbered_keys_differ(p: Seq<char>, a: nat, q: Seq<char>, b: nat)
    requires
        a != b,
    ensures
        numbered_key(p, a) != numbered_key(q, b),
{
    lemma_decimal_digits(a);
    lemma_decimal_digits(b);
    let x = numbered_key(p, a);
    let y = numbered_key(q, b);
    if x == y {
        let da = decimal(a);
        let db = decimal(b);
        if da.len() == db.len() {
            assert(da =~= x.skip(x.len() - da.len()));
            assert(db =~= y.skip(y.len() - db.len()));
            lemma_decimal_injective(a, b);
        } else if da.len() < db.len() {
            let k = x.len() - da.len() - 1;
            assert(x[k] == '-');
            assert(y[k] == db[k - (y.len() - db.len())]);
        } else {
            let k = y.len() - db.len() - 1;
            assert(y[k] == '-');
            assert(x[k] == da[k - (x.len() - da.len())]);
        }
    }
}

/// The next key is free: no issue carries the next number yet.
pub proof fn lemma_next_key_free(m: MockView, project: Seq<char>)
    requires
        keys_numbered(m),
    ensures
        absent(m.issues, new_key(project, m.next)),
{
    assert forall|j: int| 0 <= j < m.issues.len() implies m.issues[j].key != new_key(project, m.next) by {
        assert(numbered_below(m.issues[j].key, m.next));
        let (p, n) = choose|p: Seq<char>, n: nat| n < m.next && m.issues[j].key == #[trigger] numbered_key(p, n);
        lemma_numbered_keys_differ(p, n, project, m.next as nat);
    }
}

/// The issue `create_issue` adds.
pub open spec fn created_issue(
    m: MockView,
    project: Seq<char>,
    issue_type: Seq<char>,
    summary: Seq<char>,
    description: Option<Seq<char>>,
) -> IssueView {
    IssueView {
        key: new_key(project, m.next),
        id: decimal((2000 + m.next) as nat),
        fields: FieldsView {
            summary,
            status: Some(nr("To Do"@, "1"@)),
            assignee: Some(m.me),
            reporter: None,
            priority: None,
            issuetype: Some(nr(issue_type, "0"@)),
            labels: seq![],
            updated: Seq::empty(),
            created: Seq::empty(),
            duedate: None,
            description,
            comment: None,
        },
    }
}

/// Issues that are not Done, in order.
pub open spec fn not_done(s: Seq<IssueView>) -> Seq<IssueView>
    decreases s.len(),
{
    if s.len() == 0 {
        seq![]
    } else if status_name(s.last()) != "Done"@ {
        not_done(s.drop_last()).push(s.last())
    } else {
        not_done(s.drop_last())
    }
}

pub open spec fn first_n<T>(s: Seq<T>, n: u32) -> Seq<T> {
    if n as int <= s.len() {
        s.take(n as int)
    } else {
        s
    }
}

pub open spec fn option_view(o: Option<&str>) -> Option<Seq<char>> {
    match o {
        Some(s) => Some(s@),
        None => None,
    }
}

pub open spec fn practice_area() -> TransitionFieldView {
    TransitionFieldView {
        required: true,
        name: "Practice area"@,
        schema: schema("option"@),
        allowed_values: seq![
            av("300"@, "Corporate"@),
            av("301"@, "Litigation"@),
            av("302"@, "IP"@),
        ],
    }
}

pub open spec fn target(project_key: Seq<char>, project_name: Seq<char>, issuetype_name: Seq<char>, required: Seq<(Seq<char>, TransitionFieldView)>) -> CreateOptionView {
    CreateOptionView { project_key, project_name, issuetype_name, required }
}

/// The demo projects × issue types; "Matter" requires a practice-area pick-list.
pub open spec fn demo_targets() -> Seq<CreateOptionView> {
    seq![
        target("ACME"@, "Acme Legal"@, "Task"@, seq![]),
        target("ACME"@, "Acme Legal"@, "Matter"@, seq![("customfield_20000"@, practice_area())]),
        target("ACME"@, "Acme Legal"@, "Bug"@, seq![]),
        target("OPS"@, "Operations"@, "Task"@, seq![]),
    ]
}

pub open spec fn tf(name: Seq<char>, schema: FieldSchemaView, allowed_values: Seq<AllowedValueView>) -> TransitionFieldView {
    TransitionFieldView { required: false, name, schema, allowed_values }
}

/// The demo edit metadata: standard fields plus one custom pick-list.
pub open spec fn demo_edit_meta() -> Seq<(Seq<char>, TransitionFieldView)> {
    seq![
        ("summary"@, tf("Summary"@, schema(Seq::empty()), seq![])),
        ("assignee"@, tf("Assignee"@, schema("user"@), seq![])),
        ("priority"@, tf("Priority"@, schema("priority"@), seq![av("2"@, "High"@), av("3"@, "Medium"@), av("4"@, "Low"@)])),
        ("duedate"@, tf("Due date"@, schema("date"@), seq![])),
        ("labels"@, tf("Labels"@, FieldSchemaView { type_: "array"@, items: "string"@ }, seq![])),
        ("customfield_10010"@, tf("Severity (custom field)"@, schema("option"@), seq![av("100"@, "Sev-1"@), av("101"@, "Sev-2"@)])),
    ]
}

/// The demo assignable users: the signed-in user, Dana and Sam.
pub open spec fn demo_assignable(me: UserView) -> Seq<UserView> {
    seq![
        me,
        UserView { display_name: "Dana Lee"@, account_id: "dana"@, name: "dana"@, email: "dana@example.com"@ },
        UserView { display_name: "Sam Patel"@, account_id: "sam"@, name: "sam"@, email: Seq::empty() },
    ]
}

/// Mathematical value of a [`MockJira`].
pub struct MockView {
    pub me: UserView,
    pub issues: Seq<IssueView>,
    pub next: u32,
}

pub struct MockJira {
    me: User,
    issues: Vec<Issue>,
    next: u32,
}

impl View for MockJira {
    type V = MockView;

    closed spec fn view(&self) -> MockView {
        MockView { me: self.me.deep_view(), issues: self.issues.deep_view(), next: self.next }
    }
}

impl MockJira {
    /// Every key the mock holds carries a number below the next one, so a new
    /// issue's key is always free.
    #[verifier::type_invariant]
    closed spec fn keys_numbered_inv(&self) -> bool {
        keys_numbered(self@)
    }
}

/// The demo issues' keys are numbered 101 to 104 in project ACME.
proof fn lemma_fixture_keys()
    ensures
        keys_numbered(MockView { me: demo_user(), issues: fixture_view(), next: 105 }),
{
    reveal_strlit("ACME-101");
    reveal_strlit("ACME-102");
    reveal_strlit("ACME-103");
    reveal_strlit("ACME-104");
    reveal_strlit("ACME");
    let m = MockView { me: demo_user(), issues: fixture_view(), next: 105 };
    assert forall|i: int| 0 <= i < m.issues.len() implies numbered_below(#[trigger] m.issues[i].key, m.next) by {
        let n = (101 + i) as nat;
        assert(decimal(n) =~= seq!['1', '0', (49 + i) as char]) by {
            reveal_with_fuel(decimal, 4);
        }
        assert(m.issues[i].key =~= numbered_key("ACME"@, n));
    }
}

/// `i` is the first position of an issue keyed `key`.
pub open spec fn first_at(issues: Seq<IssueView>, key: Seq<char>, i: int) -> bool {
    &&& 0 <= i < issues.len()
    &&& issues[i].key == key
    &&& forall|j: int| 0 <= j < i ==> issues[j].key != key
}

/// No issue is keyed `key`.
pub open spec fn absent(issues: Seq<IssueView>, key: Seq<char>) -> bool {
    forall|j: int| 0 <= j < issues.len() ==> issues[j].key != key
}

/// The issue that a lookup of `key` finds.
pub open spec fn lookup(issues: Seq<IssueView>, key: Seq<char>) -> Option<IssueView> {
    if exists|i: int| first_at(issues, key, i) {
        Some(issues[choose|i: int| first_at(issues, key, i)])
    } else {
        None
    }
}

/// The first position of an issue with `key` is unique.
pub proof fn lemma_first_at_unique(issues: Seq<IssueView>, key: Seq<char>, i: int, j: int)
    requires
        first_at(issues, key, i),
        first_at(issues, key, j),
    ensures
        i == j,
{
    if i < j {
        assert(issues[i].key != key);
    } else if j < i {
        assert(issues[j].key != key);
    }
}

fn allowed(id: &str, name: &str) -> (r: AllowedValue)
    ensures
        r.deep_view() == av(id@, name@),
{
    AllowedValue { id: owned(id), name: owned(name), value: String::new() }
}

fn schema_of(type_: &str) -> (r: FieldSchema)
    ensures
        r.deep_view() == schema(type_@),
{
    FieldSchema { type_: owned(type_), items: String::new() }
}

fn resolution() -> (r: TransitionField)
    ensures
        r.deep_view() == resolution_field(),
{
    let r = TransitionField {
        required: true,
        name: owned("Resolution"),
        schema: schema_of("resolution"),
        allowed_values: vec![allowed("10000", "Done"), allowed("10001", "Won't Do"), allowed("10002", "Duplicate")],
    };
    assert(r.allowed_values.deep_view() =~= resolution_field().allowed_values);
    r
}

fn transition_of(id: &str, name: &str, to: NamedRef, fields: Vec<(String, TransitionField)>) -> (r: Transition)
    ensures
        r.deep_view() == tv(id@, name@, to.deep_view(), fields.deep_view()),
{
    Transition { id: owned(id), name: owned(name), to: Some(to), fields }
}

/// The workflow transitions offered from `status` (see [`workflow`]).
pub fn transitions_for(status: &str) -> (r: Vec<Transition>)
    ensures
        r.deep_view() == workflow(status@),
        forall|k: int| 0 <= k < r@.len() ==> keys_ascending(#[trigger] r.deep_view()[k].fields)
            && keys_unique(r.deep_view()[k].fields),
{
    let e1: Vec<(String, TransitionField)> = Vec::new();
    let e2: Vec<(String, TransitionField)> = Vec::new();
    let e3: Vec<(String, TransitionField)> = Vec::new();
    assert(e1.deep_view() =~= Seq::<(Seq<char>, TransitionFieldView)>::empty());
    assert(e2.deep_view() =~= Seq::<(Seq<char>, TransitionFieldView)>::empty());
    assert(e3.deep_view() =~= Seq::<(Seq<char>, TransitionFieldView)>::empty());
    let start = transition_of("21", "Start Progress", named("In Progress", "3"), e1);
    let backlog = transition_of("11", "Back to To Do", named("To Do", "1"), e2);
    let done_fields = vec![(owned("resolution"), resolution())];
    assert(done_fields.deep_view() =~= seq![("resolution"@, resolution_field())]);
    let done = transition_of("31", "Done", named("Done", "5"), done_fields);
    let reopen = transition_of("11", "Reopen", named("To Do", "1"), e3);
    let r = if str_eq(status, "To Do") {
        vec![start]
    } else if str_eq(status, "In Progress") {
        vec![done, backlog]
    } else if str_eq(status, "Done") {
        vec![reopen]
    } else {
        vec![start]
    };
    assert(r.deep_view() =~= workflow(status@));
    assert forall|k: int| 0 <= k < r@.len() implies keys_ascending(#[trigger] r.deep_view()[k].fields)
        && keys_unique(r.deep_view()[k].fields) by {
        assert(r.deep_view()[k].fields.len() <= 1);
    }
    r
}


/// The string inside an optional JSON value.
fn str_in<'a>(v: Option<&'a Json>) -> (r: Option<&'a str>)
    ensures
        r matches Some(s) ==> (v matches Some(j) && j.str_of() == Some(s@)),
        r is None ==> (v is None || v->0.str_of() is None),
{
    match v {
        Some(j) => j.as_str(),
        None => None,
    }
}

/// The mock's name for a priority id.
fn priority_name_for(id: &str) -> (r: String)
    ensures
        r@ == priority_for(id@),
{
    if str_eq(id, "2") {
        owned("High")
    } else if str_eq(id, "3") {
        owned("Medium")
    } else if str_eq(id, "4") {
        owned("Low")
    } else {
        owned("Medium")
    }
}

/// The target of the first transition with id `tid`.
fn find_target(ts: &Vec<Transition>, tid: &str) -> (r: Option<NamedRef>)
    ensures
        r.deep_view() == target_of(ts.deep_view(), tid@),
{
    let ghost tsv = ts.deep_view();
    let mut j: usize = 0;
    assert(tsv.skip(0) == tsv);
    while j < ts.len()
        invariant
            j <= ts@.len(),
            tsv == ts.deep_view(),
            target_of(tsv, tid@) == target_of(tsv.skip(j as int), tid@),
        decreases ts.len() - j,
    {
        assert(tsv.skip(j as int).skip(1) == tsv.skip(j + 1));
        assert(tsv.skip(j as int)[0] == ts@[j as int].deep_view());
        if str_eq(ts[j].id.as_str(), tid) {
            return ts[j].to.clone();
        }
        j = j + 1;
    }
    None
}

impl MockJira {
    /// Position of the first issue keyed `key`.
    fn find(&self, key: &str) -> (r: Option<usize>)
        ensures
            r matches Some(i) ==> first_at(self@.issues, key@, i as int),
            r is None ==> absent(self@.issues, key@),
    {
        let mut i: usize = 0;
        while i < self.issues.len()
            invariant
                i <= self.issues@.len(),
                forall|j: int| 0 <= j < i ==> self@.issues[j].key != key@,
            decreases self.issues.len() - i,
        {
            if str_eq(self.issues[i].key.as_str(), key) {
                return Some(i);
            }
            i = i + 1;
        }
        None
    }

    /// Puts `issue`, which keeps its key, at position `i`.
    fn replace_issue(&mut self, i: usize, issue: Issue)
        requires
            i < old(self)@.issues.len(),
            issue.deep_view().key == old(self)@.issues[i as int].key,
        ensures
            final(self)@ == (MockView { issues: old(self)@.issues.update(i as int, issue.deep_view()), ..old(self)@ }),
    {
        proof {
            use_type_invariant(&*self);
        }
        let mut issues: Vec<Issue> = Vec::new();
        std::mem::swap(&mut issues, &mut self.issues);
        let ghost before = issues.deep_view();
        issues.set(i, issue);
        assert(issues.deep_view() =~= before.update(i as int, issue.deep_view()));
        assert forall|j: int| 0 <= j < issues@.len() implies numbered_below(#[trigger] issues.deep_view()[j].key, self.next) by {
            assert(numbered_below(before[j].key, self.next));
        }
        self.issues = issues;
    }

    /// The mock with its demo issues; new keys continue from 105.
    pub fn new() -> (r: MockJira)
        ensures
            r@.me == demo_user(),
            r@.issues == fixture_view(),
            r@.next == 105,
    {
        let me = User {
            display_name: owned("Marc Jones"),
            account_id: owned("me"),
            name: owned("marc"),
            email: owned("marc@example.com"),
        };
        proof {
            lemma_fixture_keys();
        }
        MockJira { me, issues: fixture_issues(), next: 105 }
    }

    /// The number the next created issue will carry; `create_issue` needs it
    /// to be at most `u32::MAX - 2000` (see `can_create`).
    pub fn next_number(&self) -> (r: u32)
        ensures
            r == self@.next,
    {
        self.next
    }
}

impl Jira for MockJira {
    /// The demo numbers a created issue `2000 + n` from its counter, so the
    /// counter must leave room for that.
    open spec fn can_create(&self) -> bool {
        self@.next <= u32::MAX - 2000
    }

    /// The signed-in user.
    fn myself(&self) -> (res: Result<User, JiraError>)
        ensures
            res matches Ok(r) && r.deep_view() == self@.me,
    {
        Ok(self.me.clone())
    }

    /// The issue keyed `key`.
    fn issue(&self, key: &str) -> (r: Result<Issue, JiraError>)
        ensures
            r matches Ok(i) ==> lookup(self@.issues, key@) == Some(i.deep_view()),
            r matches Err(e) ==> (lookup(self@.issues, key@) is None && (e matches JiraError::NoSuchIssue(k)
                && k@ == key@)),
            r is Ok <==> lookup(self@.issues, key@) is Some,
    {
        match self.find(key) {
            Some(i) => {
                proof {
                    lemma_first_unique_choice(self@.issues, key@, i as int);
                }
                Ok(self.issues[i].clone())
            },
            None => {
                proof {
                    lemma_absent_lookup(self@.issues, key@);
                }
                Err(JiraError::NoSuchIssue(owned(key)))
            },
        }
    }


    /// Open (not Done) issues, at most `max` of them.
    fn my_issues(&self, max: u32) -> (res: Result<Vec<Issue>, JiraError>)
        ensures
            res matches Ok(r) && r.deep_view() == first_n(not_done(self@.issues), max),
    {
        let mut v: Vec<Issue> = Vec::new();
        let mut i: usize = 0;
        while i < self.issues.len()
            invariant
                i <= self.issues@.len(),
                v.deep_view() == not_done(self@.issues.take(i as int)),
            decreases self.issues.len() - i,
        {
            let ghost t = self@.issues.take(i + 1);
            assert(t.drop_last() == self@.issues.take(i as int));
            assert(t.last() == self@.issues[i as int]);
            if !str_eq(self.issues[i].status(), "Done") {
                let ghost before = v.deep_view();
                v.push(self.issues[i].clone());
                assert(v.deep_view() =~= before.push(self@.issues[i as int]));
            }
            i = i + 1;
        }
        assert(self@.issues.take(self.issues@.len() as int) == self@.issues);
        let ghost all = v.deep_view();
        v.truncate(max as usize);
        assert(v.deep_view() =~= first_n(all, max));
        Ok(v)
    }

    /// The first `max` issues (the JQL is not interpreted) and the total count.
    fn search(&self, jql: &str, max: u32) -> (res: Result<SearchResult, JiraError>)
        ensures
            res matches Ok(r) && r.issues.deep_view() == first_n(self@.issues, max) && r.total
                == self@.issues.len() % 4294967296 && r.start_at == 0,
    {
        let n = if (max as usize) < self.issues.len() { max as usize } else { self.issues.len() };
        let mut v: Vec<Issue> = Vec::new();
        let mut i: usize = 0;
        while i < n
            invariant
                n <= self.issues@.len(),
                i <= n,
                v.deep_view() == self@.issues.take(i as int),
            decreases n - i,
        {
            let ghost before = v.deep_view();
            v.push(self.issues[i].clone());
            assert(v.deep_view() =~= before.push(self@.issues[i as int]));
            assert(v.deep_view() =~= self@.issues.take(i + 1));
            i = i + 1;
        }
        let total = ((self.issues.len() as u64) % 4294967296) as u32;
        assert(v.deep_view() =~= first_n(self@.issues, max));
        Ok(SearchResult { issues: v, total, start_at: 0 })
    }

    /// The transitions offered for the issue keyed `key`.
    fn transitions(&self, key: &str) -> (r: Result<Vec<Transition>, JiraError>)
        ensures
            r matches Ok(ts) ==> (lookup(self@.issues, key@) matches Some(i) && ts.deep_view() == workflow(status_name(i))),
            r matches Ok(ts) ==> (forall|k: int| 0 <= k < ts@.len() ==> keys_ascending(#[trigger] ts.deep_view()[k].fields)
                && keys_unique(ts.deep_view()[k].fields)),
            r matches Err(e) ==> (lookup(self@.issues, key@) is None && (e matches JiraError::NoSuchIssue(k) && k@ == key@)),
    {
        let i = self.issue(key)?;
        Ok(transitions_for(i.status()))
    }

    /// The demo projects × issue types (see [`demo_targets`]).
    fn create_targets(&self) -> (res: Result<Vec<CreateOption>, JiraError>)
        ensures
            res matches Ok(r) && r.deep_view() == demo_targets() && (forall|k: int| 0 <= k < r@.len()
                ==> keys_ascending(#[trigger] r.deep_view()[k].required) && keys_unique(r.deep_view()[k].required)),
    {
        let practice = TransitionField {
            required: true,
            name: owned("Practice area"),
            schema: schema_of("option"),
            allowed_values: vec![allowed("300", "Corporate"), allowed("301", "Litigation"), allowed("302", "IP")],
        };
        assert(practice.allowed_values.deep_view() =~= practice_area().allowed_values);
        let matter_fields = vec![(owned("customfield_20000"), practice)];
        assert(matter_fields.deep_view() =~= seq![("customfield_20000"@, practice_area())]);
        let e1: Vec<(String, TransitionField)> = Vec::new();
        let e2: Vec<(String, TransitionField)> = Vec::new();
        let e3: Vec<(String, TransitionField)> = Vec::new();
        assert(e1.deep_view() =~= Seq::<(Seq<char>, TransitionFieldView)>::empty());
        assert(e2.deep_view() =~= Seq::<(Seq<char>, TransitionFieldView)>::empty());
        assert(e3.deep_view() =~= Seq::<(Seq<char>, TransitionFieldView)>::empty());
        let r = vec![
            CreateOption { project_key: owned("ACME"), project_name: owned("Acme Legal"), issuetype_name: owned("Task"), required: e1 },
            CreateOption { project_key: owned("ACME"), project_name: owned("Acme Legal"), issuetype_name: owned("Matter"), required: matter_fields },
            CreateOption { project_key: owned("ACME"), project_name: owned("Acme Legal"), issuetype_name: owned("Bug"), required: e2 },
            CreateOption { project_key: owned("OPS"), project_name: owned("Operations"), issuetype_name: owned("Task"), required: e3 },
        ];
        assert(r.deep_view() =~= demo_targets());
        assert forall|k: int| 0 <= k < r@.len() implies keys_ascending(#[trigger] r.deep_view()[k].required)
            && keys_unique(r.deep_view()[k].required) by {
            assert(r.deep_view()[k].required.len() <= 1);
        }
        Ok(r)
    }

    /// Users who can be assigned an issue: the signed-in user, Dana and Sam.
    fn assignable_users(&self, key: &str) -> (res: Result<Vec<User>, JiraError>)
        ensures
            res matches Ok(r) && r.deep_view() == demo_assignable(self@.me),
    {
        let r = vec![
            self.me.clone(),
            User { display_name: owned("Dana Lee"), account_id: owned("dana"), name: owned("dana"), email: owned("dana@example.com") },
            User { display_name: owned("Sam Patel"), account_id: owned("sam"), name: owned("sam"), email: String::new() },
        ];
        assert(r.deep_view() =~= demo_assignable(self@.me));
        Ok(r)
    }

    /// Fields editable on an issue (see [`demo_edit_meta`]).
    fn edit_meta(&self, key: &str) -> (res: Result<Vec<(String, TransitionField)>, JiraError>)
        ensures
            res matches Ok(r) && r.deep_view() == demo_edit_meta() && keys_unique(r.deep_view()),
    {
        let prio = TransitionField {
            required: false,
            name: owned("Priority"),
            schema: schema_of("priority"),
            allowed_values: vec![allowed("2", "High"), allowed("3", "Medium"), allowed("4", "Low")],
        };
        let summary = TransitionField { required: false, name: owned("Summary"), schema: FieldSchema::default(), allowed_values: Vec::new() };
        let duedate = TransitionField { required: false, name: owned("Due date"), schema: schema_of("date"), allowed_values: Vec::new() };
        let severity = TransitionField {
            required: false,
            name: owned("Severity (custom field)"),
            schema: schema_of("option"),
            allowed_values: vec![allowed("100", "Sev-1"), allowed("101", "Sev-2")],
        };
        let assignee = TransitionField { required: false, name: owned("Assignee"), schema: schema_of("user"), allowed_values: Vec::new() };
        let labels = TransitionField {
            required: false,
            name: owned("Labels"),
            schema: FieldSchema { type_: owned("array"), items: owned("string") },
            allowed_values: Vec::new(),
        };
        let ghost m = demo_edit_meta();
        assert(prio.allowed_values.deep_view() =~= m[2].1.allowed_values);
        assert(severity.allowed_values.deep_view() =~= m[5].1.allowed_values);
        assert(summary.allowed_values.deep_view() =~= m[0].1.allowed_values);
        assert(duedate.allowed_values.deep_view() =~= m[3].1.allowed_values);
        assert(assignee.allowed_values.deep_view() =~= m[1].1.allowed_values);
        assert(labels.allowed_values.deep_view() =~= m[4].1.allowed_values);
        assert(summary.schema.deep_view().type_ =~= m[0].1.schema.type_);
        assert(summary.schema.deep_view().items =~= m[0].1.schema.items);
        let r = vec![
            (owned("summary"), summary),
            (owned("assignee"), assignee),
            (owned("priority"), prio),
            (owned("duedate"), duedate),
            (owned("labels"), labels),
            (owned("customfield_10010"), severity),
        ];
        assert(r.deep_view() =~= demo_edit_meta());
        proof {
            reveal_strlit("summary");
            reveal_strlit("assignee");
            reveal_strlit("priority");
            reveal_strlit("duedate");
            reveal_strlit("labels");
            reveal_strlit("customfield_10010");
            assert(m[0].0[0] == 's' && m[1].0[0] == 'a' && m[2].0[0] == 'p');
            assert(m[3].0[0] == 'd' && m[4].0[0] == 'l' && m[5].0[0] == 'c');
            assert forall|i: int, j: int| 0 <= i < j < m.len() implies #[trigger] m[i].0 != #[trigger] m[j].0 by {
                assert(m[i].0[0] != m[j].0[0]);
            }
        }
        Ok(r)
    }


    /// Moves the issue keyed `key` through transition `transition_id` of its
    /// current status; the field values are not needed by the demo workflow.
    fn transition(&mut self, key: &str, transition_id: &str, fields: Json) -> (r: Result<(), JiraError>)
        ensures
            r is Ok <==> transition_target(old(self)@, key@, transition_id@) is Some,
            r is Ok ==> final(self)@ == with_issue(
                old(self)@,
                key@,
                with_status(lookup(old(self)@.issues, key@)->0, transition_target(old(self)@, key@, transition_id@)->0),
            ),
            r is Err ==> final(self)@ == old(self)@,
            r matches Err(e) ==> (lookup(old(self)@.issues, key@) is None ==> (e matches JiraError::NoSuchIssue(k) && k@ == key@)),
            r matches Err(e) ==> (lookup(old(self)@.issues, key@) is Some ==> (e matches JiraError::TransitionNotAvailable(t) && t@ == transition_id@)),
    {
        let i = match self.find(key) {
            Some(i) => i,
            None => {
                proof {
                    lemma_absent_lookup(self@.issues, key@);
                }
                return Err(JiraError::NoSuchIssue(owned(key)));
            },
        };
        proof {
            lemma_first_unique_choice(self@.issues, key@, i as int);
        }
        let ts = transitions_for(self.issues[i].status());
        match find_target(&ts, transition_id) {
            Some(to) => {
                let mut issue = self.issues[i].clone();
                issue.fields.status = Some(to);
                self.replace_issue(i, issue);
                assert(self@.issues =~= old(self)@.issues.update(i as int, with_status(old(self)@.issues[i as int], transition_target(old(self)@, key@, transition_id@)->0)));
                Ok(())
            },
            None => Err(JiraError::TransitionNotAvailable(owned(transition_id))),
        }
    }


    /// Updates the issue keyed `key` from a `fields` object (see [`updated`]).
    fn update_issue(&mut self, key: &str, fields: Json) -> (r: Result<(), JiraError>)
        ensures
            r is Ok <==> lookup(old(self)@.issues, key@) is Some,
            r is Ok ==> final(self)@ == with_issue(old(self)@, key@, updated(lookup(old(self)@.issues, key@)->0, fields)),
            r matches Err(e) ==> final(self)@ == old(self)@ && (e matches JiraError::NoSuchIssue(k) && k@ == key@),
    {
        let i = match self.find(key) {
            Some(i) => i,
            None => {
                proof {
                    lemma_absent_lookup(self@.issues, key@);
                }
                return Err(JiraError::NoSuchIssue(owned(key)));
            },
        };
        proof {
            lemma_first_unique_choice(self@.issues, key@, i as int);
        }
        let mut issue = self.issues[i].clone();
        if let Some(v) = str_in(fields.get("summary")) {
            issue.fields.summary = owned(v);
        }
        if let Some(v) = str_in(fields.get("duedate")) {
            issue.fields.duedate = Some(owned(v));
        }
        let pid = match fields.get("priority") {
            Some(p) => str_in(p.get("id")),
            None => None,
        };
        if let Some(id) = pid {
            issue.fields.priority = Some(NamedRef { name: priority_name_for(id), id: owned(id) });
        }
        if let Some(Json::Array(arr)) = fields.get("labels") {
            issue.fields.labels = strings_in(arr);
        }
        assert(issue.deep_view() == updated(old(self)@.issues[i as int], fields));
        self.replace_issue(i, issue);
        assert(self@.issues =~= old(self)@.issues.update(i as int, updated(old(self)@.issues[i as int], fields)));
        Ok(())
    }

    /// Adds a comment by the signed-in user to the issue keyed `key`.
    fn add_comment(&mut self, key: &str, body: &str) -> (r: Result<Comment, JiraError>)
        ensures
            r is Ok <==> lookup(old(self)@.issues, key@) is Some,
            r matches Ok(c) ==> final(self)@ == commented(old(self)@, key@, body@)
                && c.deep_view() == new_comment(lookup(old(self)@.issues, key@)->0, old(self)@.me, body@),
            r matches Err(e) ==> final(self)@ == old(self)@ && (e matches JiraError::NoSuchIssue(k) && k@ == key@),
    {
        let i = match self.find(key) {
            Some(i) => i,
            None => {
                proof {
                    lemma_absent_lookup(self@.issues, key@);
                }
                return Err(JiraError::NoSuchIssue(owned(key)));
            },
        };
        proof {
            lemma_first_unique_choice(self@.issues, key@, i as int);
        }
        let mut issue = self.issues[i].clone();
        let n: usize = match &issue.fields.comment {
            Some(p) => p.comments.len(),
            None => 0,
        };
        let mut id = owned("c");
        proof {
            reveal_strlit("c");
            assert("c"@ =~= seq!['c']);
        }
        push_decimal(&mut id, n as u128 + 9000);
        let c = Comment {
            id,
            author: Some(self.me.clone()),
            body: owned(body),
            created: owned("2026-06-04T12:00:00.000+0000"),
        };
        let mut page = match issue.fields.comment.take() {
            Some(p) => p,
            None => CommentPage::default(),
        };
        assert(page.comments.deep_view() =~= comments_of(old(self)@.issues[i as int].fields.comment));
        let ghost before = page.comments.deep_view();
        page.comments.push(c.clone());
        assert(page.comments.deep_view() =~= before.push(c.deep_view()));
        page.total = ((page.comments.len() as u64) % 4294967296) as u32;
        assert(page.comments.deep_view() == comments_of(old(self)@.issues[i as int].fields.comment).push(c.deep_view()));
        issue.fields.comment = Some(page);
        assert(issue.deep_view() == with_comment(old(self)@.issues[i as int], c.deep_view()));
        self.replace_issue(i, issue);
        assert(self@.issues =~= old(self)@.issues.update(i as int, with_comment(old(self)@.issues[i as int], c.deep_view())));
        Ok(c)
    }

    /// Service-desk comment: the body is tagged as public reply or internal note.
    fn add_request_comment(&mut self, key: &str, body: &str, public: bool) -> (r: Result<(), JiraError>)
        ensures
            r is Ok <==> lookup(old(self)@.issues, key@) is Some,
            r is Ok ==> final(self)@ == commented(old(self)@, key@, visibility_tag(public) + body@),
            r matches Err(e) ==> final(self)@ == old(self)@ && (e matches JiraError::NoSuchIssue(k) && k@ == key@),
    {
        let mut text = if public { owned("[Reply to customer] ") } else { owned("[Internal note] ") };
        push_str(&mut text, body);
        match self.add_comment(key, text.as_str()) {
            Ok(_) => Ok(()),
            Err(e) => Err(e),
        }
    }

    /// Assigns the issue keyed `key` to `assignee` (used as name and id).
    fn assign(&mut self, key: &str, assignee: &str) -> (r: Result<(), JiraError>)
        ensures
            r is Ok <==> lookup(old(self)@.issues, key@) is Some,
            r is Ok ==> final(self)@ == with_issue(old(self)@, key@, with_assignee(lookup(old(self)@.issues, key@)->0, assignee@)),
            r matches Err(e) ==> final(self)@ == old(self)@ && (e matches JiraError::NoSuchIssue(k) && k@ == key@),
    {
        let i = match self.find(key) {
            Some(i) => i,
            None => {
                proof {
                    lemma_absent_lookup(self@.issues, key@);
                }
                return Err(JiraError::NoSuchIssue(owned(key)));
            },
        };
        proof {
            lemma_first_unique_choice(self@.issues, key@, i as int);
        }
        let mut issue = self.issues[i].clone();
        issue.fields.assignee = Some(User {
            display_name: owned(assignee),
            account_id: owned(assignee),
            name: owned(assignee),
            email: String::new(),
        });
        self.replace_issue(i, issue);
        assert(self@.issues =~= old(self)@.issues.update(i as int, with_assignee(old(self)@.issues[i as int], assignee@)));
        Ok(())
    }

    /// Creates an issue (To Do, assigned to the signed-in user) and returns its
    /// key `<project>-<n>`; the extra fields are not recorded.
    fn create_issue(
        &mut self,
        project_key: &str,
        issue_type: &str,
        summary: &str,
        description: Option<&str>,
        extra: Json,
    ) -> (res: Result<String, JiraError>)
        ensures
            res matches Ok(r) && r@ == new_key(project_key@, old(self)@.next),
            final(self)@ == (MockView {
                me: old(self)@.me,
                issues: old(self)@.issues.push(created_issue(old(self)@, project_key@, issue_type@, summary@, option_view(description))),
                next: (old(self)@.next + 1) as u32,
            }),
            lookup(final(self)@.issues, new_key(project_key@, old(self)@.next)) == Some(
                created_issue(old(self)@, project_key@, issue_type@, summary@, option_view(description)),
            ),
            forall|other: Seq<char>| other != new_key(project_key@, old(self)@.next) ==> #[trigger] lookup(final(self)@.issues, other) == lookup(
                old(self)@.issues,
                other,
            ),
    {
        proof {
            use_type_invariant(&*self);
        }
        let ghost m0 = self@;
        let ghost created = created_issue(m0, project_key@, issue_type@, summary@, option_view(description));
        let mut key = owned(project_key);
        push_str(&mut key, "-");
        proof {
            reveal_strlit("-");
            assert("-"@ =~= seq!['-']);
        }
        push_decimal(&mut key, self.next as u128);
        let mut id = String::new();
        push_decimal(&mut id, (2000 + self.next) as u128);
        assert(id@ =~= decimal((2000 + m0.next) as nat));
        let n0: u32 = self.next;
        assert forall|j: int| 0 <= j < m0.issues.len() implies numbered_below(#[trigger] m0.issues[j].key, (n0 + 1) as u32) by {
            assert(numbered_below(m0.issues[j].key, n0));
            let (p, n) = choose|p: Seq<char>, n: nat| n < n0 && m0.issues[j].key == #[trigger] numbered_key(p, n);
            assert(m0.issues[j].key == numbered_key(p, n));
        }
        self.next = n0 + 1;
        let mut fields = Fields::default();
        fields.summary = owned(summary);
        fields.status = Some(named("To Do", "1"));
        fields.issuetype = Some(named(issue_type, "0"));
        fields.assignee = Some(self.me.clone());
        fields.description = match description {
            Some(d) => Some(owned(d)),
            None => None,
        };
        assert(fields.labels.deep_view() =~= Seq::<Seq<char>>::empty());
        assert(fields.updated@ =~= Seq::<char>::empty());
        assert(fields.created@ =~= Seq::<char>::empty());
        let issue = Issue { key: key.clone(), id, fields };
        assert(issue.deep_view() == created);
        let mut issues: Vec<Issue> = Vec::new();
        std::mem::swap(&mut issues, &mut self.issues);
        let ghost before = issues.deep_view();
        issues.push(issue);
        assert(issues.deep_view() =~= before.push(created));
        assert(numbered_key(project_key@, n0 as nat) == created.key);
        assert forall|j: int| 0 <= j < issues@.len() implies numbered_below(#[trigger] issues.deep_view()[j].key, self.next) by {
            if j < before.len() {
                assert(issues.deep_view()[j] == m0.issues[j]);
            }
        }
        self.issues = issues;
        proof {
            lemma_next_key_free(m0, project_key@);
            assert forall|other: Seq<char>| other != key@ implies #[trigger] lookup(self@.issues, other) == lookup(
                m0.issues,
                other,
            ) by {
                law_create_read_back(m0, project_key@, issue_type@, summary@, option_view(description), other);
            }
            law_create_read_back(m0, project_key@, issue_type@, summary@, option_view(description), key@);
        }
        Ok(key)
    }

    /// Browse link of an issue on the demo site.
    fn browse_url(&self, key: &str) -> (r: String)
        ensures
            r@ == "https://demo.atlassian.net/browse/"@ + key@,
    {
        let mut r = owned("https://demo.atlassian.net/browse/");
        push_str(&mut r, key);
        r
    }
}

/// A lookup finds the first position keyed `key`.
pub proof fn lemma_first_unique_choice(issues: Seq<IssueView>, key: Seq<char>, i: int)
    requires
        first_at(issues, key, i),
    ensures
        lookup(issues, key) == Some(issues[i]),
{
    let c = choose|c: int| first_at(issues, key, c);
    lemma_first_at_unique(issues, key, i, c);
}

/// A lookup of an absent key finds nothing.
pub proof fn lemma_absent_lookup(issues: Seq<IssueView>, key: Seq<char>)
    requires
        absent(issues, key),
    ensures
        lookup(issues, key) is None,
{
}

/// Writing an issue back under its own key: a lookup of that key finds the new
/// issue, and a lookup of any other key finds what it found before.
pub proof fn lemma_lookup_after_write(issues: Seq<IssueView>, key: Seq<char>, x: IssueView, other: Seq<char>)
    requires
        lookup(issues, key) is Some,
        x.key == key,
    ensures
        lookup(issues.update(key_pos(issues, key), x), key) == Some(x),
        other != key ==> lookup(issues.update(key_pos(issues, key), x), other) == lookup(issues, other),
{
    let p = key_pos(issues, key);
    let n = issues.update(p, x);
    assert(first_at(issues, key, p));
    assert(first_at(n, key, p));
    lemma_first_unique_choice(n, key, p);
    if other != key {
        assert forall|j: int| #[trigger] first_at(n, other, j) <==> first_at(issues, other, j) by {
            assert forall|k: int| 0 <= k < issues.len() implies n[k].key == issues[k].key by {}
        }
        if exists|j: int| first_at(issues, other, j) {
            let j = choose|j: int| first_at(issues, other, j);
            assert(j != p);
            lemma_first_unique_choice(issues, other, j);
            lemma_first_unique_choice(n, other, j);
        } else {
            assert(!exists|j: int| first_at(n, other, j));
        }
    }
}

/// A comment written to an issue is read back as its last comment, and the
/// page's total counts it; other issues read back unchanged.
pub proof fn law_comment_read_back(m: MockView, key: Seq<char>, body: Seq<char>, other: Seq<char>)
    requires
        lookup(m.issues, key) is Some,
    ensures
        lookup(commented(m, key, body).issues, key) matches Some(i) && comments_of(i.fields.comment).last().body == body
            && comments_of(i.fields.comment).len() == comments_of(lookup(m.issues, key)->0.fields.comment).len() + 1
            && i.fields.comment->0.total == comments_of(i.fields.comment).len() % 4294967296,
        other != key ==> lookup(commented(m, key, body).issues, other) == lookup(m.issues, other),
        commented(m, key, body).issues.len() == m.issues.len(),
{
    let i = lookup(m.issues, key)->0;
    let x = with_comment(i, new_comment(i, m.me, body));
    let p = key_pos(m.issues, key);
    assert(first_at(m.issues, key, p));
    lemma_first_unique_choice(m.issues, key, p);
    lemma_lookup_after_write(m.issues, key, x, other);
}

/// After a transition that the workflow offers, the issue is in the target status.
pub proof fn law_transition_moves_status(m: MockView, key: Seq<char>, tid: Seq<char>, other: Seq<char>)
    requires
        transition_target(m, key, tid) is Some,
    ensures
        ({
            let after = with_issue(m, key, with_status(lookup(m.issues, key)->0, transition_target(m, key, tid)->0));
            &&& lookup(after.issues, key) matches Some(i) && i.fields.status == transition_target(m, key, tid)
            &&& other != key ==> lookup(after.issues, other) == lookup(m.issues, other)
            &&& after.issues.len() == m.issues.len()
        }),
{
    let i = lookup(m.issues, key)->0;
    let p = key_pos(m.issues, key);
    assert(first_at(m.issues, key, p));
    lemma_first_unique_choice(m.issues, key, p);
    lemma_lookup_after_write(m.issues, key, with_status(i, transition_target(m, key, tid)->0), other);
}

/// An update or an assignment touches only the issue it names, which keeps its key.
pub proof fn law_update_and_assign_frame(m: MockView, key: Seq<char>, f: Json, who: Seq<char>, other: Seq<char>)
    requires
        lookup(m.issues, key) is Some,
        other != key,
    ensures
        lookup(with_issue(m, key, updated(lookup(m.issues, key)->0, f)).issues, other) == lookup(m.issues, other),
        lookup(with_issue(m, key, with_assignee(lookup(m.issues, key)->0, who)).issues, key) matches Some(i)
            && i.fields.assignee matches Some(u) && u.display_name == who,
{
    let i = lookup(m.issues, key)->0;
    let p = key_pos(m.issues, key);
    assert(first_at(m.issues, key, p));
    lemma_first_unique_choice(m.issues, key, p);
    lemma_lookup_after_write(m.issues, key, updated(i, f), other);
    lemma_lookup_after_write(m.issues, key, with_assignee(i, who), other);
}

/// The demo workflow goes To Do → In Progress → Done → To Do, and every
/// transition it offers from any status leads somewhere.
pub proof fn law_workflow_cycle(status: Seq<char>)
    ensures
        target_of(workflow("To Do"@), "21"@) == Some(nr("In Progress"@, "3"@)),
        target_of(workflow("In Progress"@), "31"@) == Some(nr("Done"@, "5"@)),
        target_of(workflow("In Progress"@), "11"@) == Some(nr("To Do"@, "1"@)),
        target_of(workflow("Done"@), "11"@) == Some(nr("To Do"@, "1"@)),
        forall|k: int| 0 <= k < workflow(status).len() ==> target_of(workflow(status), #[trigger] workflow(status)[k].id) is Some,
{
    reveal_strlit("To Do");
    reveal_strlit("In Progress");
    reveal_strlit("Done");
    reveal_strlit("21");
    reveal_strlit("31");
    reveal_strlit("11");
    assert("31"@[0] != "11"@[0]);
    assert("In Progress"@[0] != "To Do"@[0]);
    assert("Done"@[0] != "To Do"@[0]);
    assert("Done"@[0] != "In Progress"@[0]);
    let start = tv("21"@, "Start Progress"@, nr("In Progress"@, "3"@), seq![]);
    let backlog = tv("11"@, "Back to To Do"@, nr("To Do"@, "1"@), seq![]);
    let done = tv("31"@, "Done"@, nr("Done"@, "5"@), seq![("resolution"@, resolution_field())]);
    assert(seq![done, backlog].skip(1) =~= seq![backlog]);
    assert(target_of(seq![backlog], "11"@) == backlog.to);
    assert(target_of(seq![done, backlog], "11"@) == target_of(seq![backlog], "11"@));
    let w = workflow(status);
    assert forall|k: int| 0 <= k < w.len() implies target_of(w, #[trigger] w[k].id) is Some by {
        if k == 1 {
            assert(status == "In Progress"@);
        }
    }
}

/// A created issue is found under its new key (which no issue had yet);
/// other keys read back unchanged.
pub proof fn law_create_read_back(
    m: MockView,
    project: Seq<char>,
    issue_type: Seq<char>,
    summary: Seq<char>,
    description: Option<Seq<char>>,
    other: Seq<char>,
)
    requires
        keys_numbered(m),
    ensures
        lookup(m.issues.push(created_issue(m, project, issue_type, summary, description)), new_key(project, m.next))
            == Some(created_issue(m, project, issue_type, summary, description)),
        other != new_key(project, m.next) ==> lookup(
            m.issues.push(created_issue(m, project, issue_type, summary, description)),
            other,
        ) == lookup(m.issues, other),
{
    lemma_next_key_free(m, project);
    let x = created_issue(m, project, issue_type, summary, description);
    let k = new_key(project, m.next);
    let n = m.issues.push(x);
    assert(first_at(n, k, m.issues.len() as int));
    lemma_first_unique_choice(n, k, m.issues.len() as int);
    if other != k {
        assert(forall|l: int| 0 <= l < m.issues.len() ==> n[l] == m.issues[l]);
        assert(n[m.issues.len() as int] == x);
        assert forall|j: int| #[trigger] first_at(n, other, j) <==> first_at(m.issues, other, j) by {
            if first_at(n, other, j) {
                assert(j < m.issues.len());
                assert forall|l: int| 0 <= l < j implies m.issues[l].key != other by {
                    assert(n[l] == m.issues[l]);
                }
            }
            if first_at(m.issues, other, j) {
                assert forall|l: int| 0 <= l < j implies n[l].key != other by {
                    assert(n[l] == m.issues[l]);
                }
                assert(n[j] == m.issues[j]);
            }
        }
        if exists|j: int| first_at(m.issues, other, j) {
            let j = choose|j: int| first_at(m.issues, other, j);
            lemma_first_unique_choice(m.issues, other, j);
            lemma_first_unique_choice(n, other, j);
        } else {
            assert(!exists|j: int| first_at(n, other, j));
        }
    }
}

/// Every issue of the open list exists in the mock and is not Done, and the
/// list holds at most `max` issues.
pub proof fn law_my_issues_are_open(issues: Seq<IssueView>, max: u32)
    ensures
        first_n(not_done(issues), max).len() <= max,
        forall|k: int| 0 <= k < first_n(not_done(issues), max).len() ==> status_name(
            #[trigger] first_n(not_done(issues), max)[k],
        ) != "Done"@ && issues.contains(first_n(not_done(issues), max)[k]),
    decreases issues.len(),
{
    lemma_not_done(issues);
}

proof fn lemma_not_done(issues: Seq<IssueView>)
    ensures
        not_done(issues).len() <= issues.len(),
        forall|k: int| 0 <= k < not_done(issues).len() ==> status_name(#[trigger] not_done(issues)[k]) != "Done"@
            && issues.contains(not_done(issues)[k]),
    decreases issues.len(),
{
    if issues.len() > 0 {
        let init = issues.drop_last();
        lemma_not_done(init);
        assert forall|k: int| 0 <= k < not_done(issues).len() implies status_name(#[trigger] not_done(issues)[k]) != "Done"@
            && issues.contains(not_done(issues)[k]) by {
            if k < not_done(init).len() {
                let j = choose|j: int| 0 <= j < init.len() && init[j] == not_done(init)[k];
                assert(issues[j] == init[j]);
            } else {
                assert(issues[issues.len() - 1] == issues.last());
            }
        }
    }
}

} // verus!
