//! What the desktop app shows and decides outside its field dialogs: the
//! issue rows, the detail pane, the signed-in user, cache file names, the
//! login form, the command palette and where the list comes from. The window
//! toolkit only draws these values and hands back the user's input.
use vstd::prelude::*;
use crate::cli::{required_keys, required_list};
use crate::config::{default_api, Auth, JiraConfig};
use crate::model::{
    assignee_name, issue_type_of, priority_name, status_name, Comment, CommentView, Issue, IssueView,
    Transition, TransitionView, User, UserView,
};
use crate::text::{
    contains, contains_seq, join, joined, lowercase, owned, push_char, push_str, str_eq, to_lowercase,
    trim, trim_ws,
};

verus! {


/// The first `n` characters of `s` (all of it when shorter).
pub open spec fn prefix(s: Seq<char>, n: nat) -> Seq<char> {
    if s.len() <= n {
        s
    } else {
        s.take(n as int)
    }
}

/// One row of the issue list.
pub struct IssueRow {
    pub key: String,
    pub summary: String,
    pub status: String,
    pub priority: String,
    pub itype: String,
    pub assignee: String,
}

pub fn to_row(i: &Issue) -> (r: IssueRow)
    ensures
        r.key@ == i.key@,
        r.summary@ == i.deep_view().fields.summary,
        r.status@ == status_name(i.deep_view()),
        r.priority@ == priority_name(i.deep_view()),
        r.itype@ == issue_type_of(i.deep_view()),
        r.assignee@ == assignee_name(i.deep_view()),
{
    IssueRow {
        key: owned(i.key.as_str()),
        summary: owned(i.summary()),
        status: owned(i.status()),
        priority: owned(i.priority()),
        itype: owned(i.issue_type()),
        assignee: owned(i.assignee()),
    }
}

/// One comment of the detail pane.
pub struct CommentRow {
    pub author: String,
    pub body: String,
    pub created: String,
}

/// The author's display name, empty when unknown.
pub open spec fn author_of(c: CommentView) -> Seq<char> {
    match c.author {
        Some(a) => a.display_name,
        None => seq![],
    }
}

pub fn to_comment(c: &Comment) -> (r: CommentRow)
    ensures
        r.author@ == author_of(c.deep_view()),
        r.body@ == c.body@,
        r.created@ == prefix(c.created@, 10),
{
    let author = match &c.author {
        Some(a) => owned(a.display_name.as_str()),
        None => String::new(),
    };
    let mut created = String::new();
    let mut n: usize = 0;
    for ch in it: c.created.as_str().chars()
        invariant
            it.seq() == c.created@,
            n == if it.index() <= 10 { it.index() as int } else { 10 },
            created@ == prefix(it.seq().take(it.index() as int), 10),
    {
        let ghost k = it.index();
        if n < 10 {
            push_char(&mut created, ch);
            n = n + 1;
            assert(created@ =~= prefix(it.seq().take(k + 1), 10));
        } else {
            assert(prefix(it.seq().take(k + 1), 10) =~= prefix(it.seq().take(k as int), 10));
        }
    }
    assert(c.created@.take(c.created@.len() as int) =~= c.created@);
    CommentRow { author, body: owned(c.body.as_str()), created }
}

/// One transition button of the detail pane.
pub struct TransitionRow {
    pub id: String,
    pub name: String,
    pub to: String,
    pub requires: String,
}

/// Name of the target status, empty when unknown.
pub open spec fn target_name(t: TransitionView) -> Seq<char> {
    match t.to {
        Some(n) => n.name,
        None => seq![],
    }
}

pub fn to_transition_row(t: &Transition) -> (r: TransitionRow)
    ensures
        r.id@ == t.id@,
        r.name@ == t.name@,
        r.to@ == target_name(t.deep_view()),
        r.requires@ == joined(required_keys(t.fields.deep_view()), ", "@),
{
    TransitionRow {
        id: owned(t.id.as_str()),
        name: owned(t.name.as_str()),
        to: match &t.to {
            Some(n) => owned(n.name.as_str()),
            None => String::new(),
        },
        requires: required_list(t),
    }
}

/// The detail pane of one issue.
pub struct Detail {
    pub summary: String,
    pub status: String,
    pub meta: String,
    pub desc: String,
    pub comments: Vec<CommentRow>,
    pub transitions: Vec<TransitionRow>,
}

/// The meta line: type · priority · assignee, then the labels and the due
/// date when there are any.
pub open spec fn detail_meta(i: IssueView) -> Seq<char> {
    issue_type_of(i) + " · "@ + priority_name(i) + " · "@ + assignee_name(i) + (if i.fields.labels.len()
        > 0 {
        " · "@ + joined(i.fields.labels, ", "@)
    } else {
        seq![]
    }) + (match i.fields.duedate {
        Some(d) => " · due "@ + d,
        None => seq![],
    })
}

/// The comments of an issue, none when it carries no comment page.
pub open spec fn comments_in(i: IssueView) -> Seq<CommentView> {
    match i.fields.comment {
        Some(p) => p.comments,
        None => seq![],
    }
}

pub fn detail_of(issue: &Issue, trans: &Vec<Transition>) -> (r: Detail)
    ensures
        r.summary@ == issue.deep_view().fields.summary,
        r.status@ == status_name(issue.deep_view()),
        r.meta@ == detail_meta(issue.deep_view()),
        r.desc@ == (match issue.deep_view().fields.description {
            Some(d) => d,
            None => seq![],
        }),
        r.comments@.len() == comments_in(issue.deep_view()).len(),
        forall|k: int|
            0 <= k < r.comments@.len() ==> {
                let c = #[trigger] comments_in(issue.deep_view())[k];
                &&& r.comments@[k].author@ == author_of(c)
                &&& r.comments@[k].body@ == c.body
                &&& r.comments@[k].created@ == prefix(c.created, 10)
            },
        r.transitions@.len() == trans@.len(),
        forall|k: int|
            0 <= k < r.transitions@.len() ==> {
                let t = #[trigger] trans.deep_view()[k];
                &&& r.transitions@[k].id@ == t.id
                &&& r.transitions@[k].name@ == t.name
                &&& r.transitions@[k].to@ == target_name(t)
                &&& r.transitions@[k].requires@ == joined(required_keys(t.fields), ", "@)
            },
{
    let ghost iv = issue.deep_view();
    let mut meta = owned(issue.issue_type());
    push_str(&mut meta, " · ");
    push_str(&mut meta, issue.priority());
    push_str(&mut meta, " · ");
    push_str(&mut meta, issue.assignee());
    if issue.fields.labels.len() > 0 {
        push_str(&mut meta, " · ");
        let l = join(&issue.fields.labels, ", ");
        push_str(&mut meta, l.as_str());
    }
    match &issue.fields.duedate {
        Some(due) => {
            push_str(&mut meta, " · due ");
            push_str(&mut meta, due.as_str());
        },
        None => {},
    }
    assert(meta@ =~= detail_meta(iv));
    let desc = match &issue.fields.description {
        Some(d) => owned(d.as_str()),
        None => String::new(),
    };
    let mut comments: Vec<CommentRow> = Vec::new();
    match &issue.fields.comment {
        Some(p) => {
            let mut k: usize = 0;
            while k < p.comments.len()
                invariant
                    k <= p.comments@.len(),
                    iv == issue.deep_view(),
                    iv.fields.comment == Some(p.deep_view()),
                    comments@.len() == k,
                    forall|j: int|
                        0 <= j < k ==> {
                            let c = #[trigger] comments_in(iv)[j];
                            &&& comments@[j].author@ == author_of(c)
                            &&& comments@[j].body@ == c.body
                            &&& comments@[j].created@ == prefix(c.created, 10)
                        },
                decreases p.comments.len() - k,
            {
                assert(comments_in(iv)[k as int] == p.comments@[k as int].deep_view());
                comments.push(to_comment(&p.comments[k]));
                k = k + 1;
            }
        },
        None => {},
    }
    let mut transitions: Vec<TransitionRow> = Vec::new();
    let mut k: usize = 0;
    while k < trans.len()
        invariant
            k <= trans@.len(),
            transitions@.len() == k,
            forall|j: int|
                0 <= j < k ==> {
                    let t = #[trigger] trans.deep_view()[j];
                    &&& transitions@[j].id@ == t.id
                    &&& transitions@[j].name@ == t.name
                    &&& transitions@[j].to@ == target_name(t)
                    &&& transitions@[j].requires@ == joined(required_keys(t.fields), ", "@)
                },
        decreases trans.len() - k,
    {
        assert(trans.deep_view()[k as int] == trans@[k as int].deep_view());
        transitions.push(to_transition_row(&trans[k]));
        k = k + 1;
    }
    Detail {
        summary: owned(issue.summary()),
        status: owned(issue.status()),
        meta,
        desc,
        comments,
        transitions,
    }
}

/// How the signed-in user is shown: the name, with the email when known.
pub open spec fn me_label(u: UserView) -> Seq<char> {
    if u.email.len() == 0 {
        u.display_name
    } else {
        u.display_name + " <"@ + u.email + ">"@
    }
}

pub fn me_label_of(u: &User) -> (r: String)
    ensures
        r@ == me_label(u.deep_view()),
{
    if u.email.as_str().is_empty() {
        owned(u.display_name.as_str())
    } else {
        let mut r = owned(u.display_name.as_str());
        push_str(&mut r, " <");
        push_str(&mut r, u.email.as_str());
        push_str(&mut r, ">");
        r
    }
}

/// A character that may stand in a cache file name as it is.
pub open spec fn safe_char(c: char) -> bool {
    ('a' <= c <= 'z') || ('A' <= c <= 'Z') || ('0' <= c <= '9') || c == '-'
}

/// The file name under which an issue's detail is cached: the key with every
/// character but ASCII letters, digits and `-` replaced by `_`, then `.json`.
pub open spec fn cache_file_name(key: Seq<char>) -> Seq<char> {
    key.map_values(|c: char| if safe_char(c) { c } else { '_' }) + ".json"@
}

pub fn cache_file_name_of(key: &str) -> (r: String)
    ensures
        r@ == cache_file_name(key@),
        r@.len() == key@.len() + 5,
        forall|i: int| 0 <= i < key@.len() ==> safe_char(#[trigger] r@[i]) || r@[i] == '_',
{
    let mut r = String::new();
    for c in it: key.chars()
        invariant
            it.seq() == key@,
            r@ == it.seq().take(it.index() as int).map_values(
                |c: char| if safe_char(c) { c } else { '_' },
            ),
    {
        let ghost k = it.index();
        let keep = ('a' <= c && c <= 'z') || ('A' <= c && c <= 'Z') || ('0' <= c && c <= '9') || c == '-';
        if keep {
            push_char(&mut r, c);
        } else {
            push_char(&mut r, '_');
        }
        assert(r@ =~= it.seq().take(k + 1).map_values(|c: char| if safe_char(c) { c } else { '_' }));
    }
    assert(key@.take(key@.len() as int) =~= key@);
    let ghost stem = r@;
    push_str(&mut r, ".json");
    proof {
        reveal_strlit(".json");
        assert forall|i: int| 0 <= i < key@.len() implies safe_char(#[trigger] r@[i]) || r@[i] == '_' by {
            assert(r@[i] == stem[i]);
        }
    }
    r
}

/// What the login wizard holds when the user tests or saves it.
pub struct LoginForm {
    pub url: String,
    /// `token`, `pat`, `password` or `raw`.
    pub method: String,
    pub email: String,
    pub token: String,
    pub username: String,
    pub password: String,
    pub raw: String,
}

/// What is wrong with the form, if anything: the URL comes first, then what
/// the chosen method needs.
pub open spec fn form_error(f: LoginForm) -> Option<Seq<char>> {
    let token = trim_ws(f.token@);
    if trim_ws(f.url@).len() == 0 {
        Some("Enter your Jira site URL"@)
    } else if f.method@ == "token"@ {
        if trim_ws(f.email@).len() == 0 || token.len() == 0 {
            Some("Email and API token are required"@)
        } else {
            None
        }
    } else if f.method@ == "pat"@ {
        if token.len() == 0 {
            Some("Personal Access Token is required"@)
        } else {
            None
        }
    } else if f.method@ == "password"@ || f.method@ == "raw"@ {
        None
    } else {
        Some("unknown method "@ + f.method@)
    }
}

/// The credentials a valid form gives: trimmed values, the password as typed.
pub open spec fn form_auth(a: Auth, f: LoginForm) -> bool {
    if f.method@ == "token"@ {
        a matches Auth::Basic { email, token } && email@ == trim_ws(f.email@) && token@ == trim_ws(
            f.token@,
        )
    } else if f.method@ == "pat"@ {
        a matches Auth::Bearer { token } && token@ == trim_ws(f.token@)
    } else if f.method@ == "password"@ {
        a matches Auth::Password { username, password } && username@ == trim_ws(f.username@)
            && password@ == f.password@
    } else if f.method@ == "raw"@ {
        a matches Auth::Raw { header } && header@ == trim_ws(f.raw@)
    } else {
        false
    }
}

/// Builds the connection config the login wizard describes.
pub fn config_from_form(f: &LoginForm) -> (r: Result<JiraConfig, String>)
    ensures
        match r {
            Ok(cfg) => form_error(*f) is None && cfg.base_url@ == trim_ws(f.url@) && cfg.api_version@
                == "2"@ && form_auth(cfg.auth, *f),
            Err(e) => form_error(*f) == Some(e@),
        },
{
    let url = trim(f.url.as_str());
    if url.as_str().is_empty() {
        return Err(owned("Enter your Jira site URL"));
    }
    let token = trim(f.token.as_str());
    let m = f.method.as_str();
    let auth = if str_eq(m, "token") {
        let email = trim(f.email.as_str());
        if email.as_str().is_empty() || token.as_str().is_empty() {
            return Err(owned("Email and API token are required"));
        }
        Auth::Basic { email, token }
    } else if str_eq(m, "pat") {
        if token.as_str().is_empty() {
            return Err(owned("Personal Access Token is required"));
        }
        Auth::Bearer { token }
    } else if str_eq(m, "password") {
        Auth::Password { username: trim(f.username.as_str()), password: owned(f.password.as_str()) }
    } else if str_eq(m, "raw") {
        Auth::Raw { header: trim(f.raw.as_str()) }
    } else {
        let mut e = owned("unknown method ");
        push_str(&mut e, m);
        return Err(e);
    };
    Ok(JiraConfig { base_url: url, auth, api_version: default_api() })
}

/// The command palette's entries: (id, label).
pub open spec fn commands() -> Seq<(Seq<char>, Seq<char>)> {
    seq![
        ("new"@, "New issue"@),
        ("refresh"@, "Refresh My Work"@),
        ("edit"@, "Edit issue fields"@),
        ("open"@, "Open issue in browser"@),
        ("account"@, "Account / sign in"@),
        ("quit"@, "Quit Lient"@),
    ]
}

pub fn palette_commands() -> (r: Vec<(String, String)>)
    ensures
        r.deep_view() == commands(),
{
    let r = vec![
        (owned("new"), owned("New issue")),
        (owned("refresh"), owned("Refresh My Work")),
        (owned("edit"), owned("Edit issue fields")),
        (owned("open"), owned("Open issue in browser")),
        (owned("account"), owned("Account / sign in")),
        (owned("quit"), owned("Quit Lient")),
    ];
    assert(r.deep_view() =~= commands());
    r
}

/// The entries whose lowercased label contains `q`, in order.
pub open spec fn matching(cs: Seq<(Seq<char>, Seq<char>)>, q: Seq<char>) -> Seq<(Seq<char>, Seq<char>)>
    decreases cs.len(),
{
    if cs.len() == 0 {
        seq![]
    } else if contains_seq(lowercase(cs.last().1), q) {
        matching(cs.drop_last(), q).push(cs.last())
    } else {
        matching(cs.drop_last(), q)
    }
}

/// The palette entries whose lowercased label contains `q`, an already
/// lowercased query.
pub fn palette_hits(q: &str) -> (r: Vec<(String, String)>)
    ensures
        r.deep_view() == matching(commands(), q@),
{
    let cs = palette_commands();
    let ghost all = cs.deep_view();
    let mut r: Vec<(String, String)> = Vec::new();
    let mut k: usize = 0;
    while k < cs.len()
        invariant
            k <= cs@.len(),
            all == cs.deep_view(),
            all == commands(),
            r.deep_view() == matching(all.take(k as int), q@),
        decreases cs.len() - k,
    {
        assert(all.take(k + 1).drop_last() =~= all.take(k as int));
        assert(all[k as int] == cs@[k as int].deep_view());
        let l = to_lowercase(cs[k].1.as_str());
        if contains(l.as_str(), q) {
            let e = (owned(cs[k].0.as_str()), owned(cs[k].1.as_str()));
            let ghost before = r.deep_view();
            r.push(e);
            assert(r.deep_view() =~= before.push(e.deep_view()));
        }
        k = k + 1;
    }
    assert(all.take(cs@.len() as int) =~= all);
    r
}

/// The palette entries matching what the user typed, compared in lowercase.
pub fn palette_filter(query: &str) -> (r: Vec<(String, String)>)
    ensures
        r.deep_view() == matching(commands(), lowercase(query@)),
{
    let q = to_lowercase(query);
    palette_hits(q.as_str())
}

/// What running a palette entry does.
pub enum PaletteAction {
    NewIssue,
    Refresh,
    EditIssue(String),
    OpenBrowser(String),
    ShowLogin,
    Quit,
}

pub enum PaletteActionView {
    NewIssue,
    Refresh,
    EditIssue(Seq<char>),
    OpenBrowser(Seq<char>),
    ShowLogin,
    Quit,
}

impl View for PaletteAction {
    type V = PaletteActionView;

    open spec fn view(&self) -> PaletteActionView {
        match self {
            PaletteAction::NewIssue => PaletteActionView::NewIssue,
            PaletteAction::Refresh => PaletteActionView::Refresh,
            PaletteAction::EditIssue(k) => PaletteActionView::EditIssue(k@),
            PaletteAction::OpenBrowser(k) => PaletteActionView::OpenBrowser(k@),
            PaletteAction::ShowLogin => PaletteActionView::ShowLogin,
            PaletteAction::Quit => PaletteActionView::Quit,
        }
    }
}

/// What the palette entry `id` does with `selected` the selected issue key
/// (empty when none): editing and opening need a selection; unknown ids do
/// nothing.
pub open spec fn palette_action_for(id: Seq<char>, selected: Seq<char>) -> Option<PaletteActionView> {
    if id == "new"@ {
        Some(PaletteActionView::NewIssue)
    } else if id == "refresh"@ {
        Some(PaletteActionView::Refresh)
    } else if id == "edit"@ {
        if selected.len() > 0 {
            Some(PaletteActionView::EditIssue(selected))
        } else {
            None
        }
    } else if id == "open"@ {
        if selected.len() > 0 {
            Some(PaletteActionView::OpenBrowser(selected))
        } else {
            None
        }
    } else if id == "account"@ {
        Some(PaletteActionView::ShowLogin)
    } else if id == "quit"@ {
        Some(PaletteActionView::Quit)
    } else {
        None
    }
}

pub fn palette_action(id: &str, selected: &str) -> (r: Option<PaletteAction>)
    ensures
        match r {
            Some(a) => palette_action_for(id@, selected@) == Some(a@),
            None => palette_action_for(id@, selected@) is None,
        },
{
    if str_eq(id, "new") {
        Some(PaletteAction::NewIssue)
    } else if str_eq(id, "refresh") {
        Some(PaletteAction::Refresh)
    } else if str_eq(id, "edit") {
        if selected.is_empty() {
            None
        } else {
            Some(PaletteAction::EditIssue(owned(selected)))
        }
    } else if str_eq(id, "open") {
        if selected.is_empty() {
            None
        } else {
            Some(PaletteAction::OpenBrowser(owned(selected)))
        }
    } else if str_eq(id, "account") {
        Some(PaletteAction::ShowLogin)
    } else if str_eq(id, "quit") {
        Some(PaletteAction::Quit)
    } else {
        None
    }
}

/// Where the issue list comes from: the inbox view searches for what changed
/// lately; My Work lists the open issues assigned to the user.
pub enum ListSource {
    Search { jql: String, max: u32 },
    MyIssues { max: u32 },
}

pub fn list_source(inbox: bool) -> (r: ListSource)
    ensures
        inbox ==> (r matches ListSource::Search { jql, max } && jql@
            == "assignee = currentUser() AND updated >= -7d ORDER BY updated DESC"@ && max == 100),
        !inbox ==> r == (ListSource::MyIssues { max: 100 }),
{
    if inbox {
        ListSource::Search {
            jql: owned("assignee = currentUser() AND updated >= -7d ORDER BY updated DESC"),
            max: 100,
        }
    } else {
        ListSource::MyIssues { max: 100 }
    }
}

/// What sending the comment box does: nothing for a blank body; a public
/// reply to the customer (service desk) when "reply to customer" is on; a
/// plain comment (an internal note on a service desk) otherwise.
pub enum CommentAction {
    Reply { key: String, body: String },
    Comment { key: String, body: String },
}

pub fn comment_action(key: &str, body: &str, public: bool) -> (r: Option<CommentAction>)
    ensures
        trim_ws(body@).len() == 0 <==> r is None,
        r matches Some(CommentAction::Reply { key: k, body: b }) ==> public && k@ == key@ && b@ == body@,
        r matches Some(CommentAction::Comment { key: k, body: b }) ==> !public && k@ == key@ && b@ == body@,
{
    if trim(body).as_str().is_empty() {
        None
    } else if public {
        Some(CommentAction::Reply { key: owned(key), body: owned(body) })
    } else {
        Some(CommentAction::Comment { key: owned(key), body: owned(body) })
    }
}

/// How the desktop app starts: demo data on the main view when demo mode is
/// asked for; the saved account on the main view when its config loads;
/// otherwise demo data behind the login wizard.
pub enum Start {
    Demo,
    Live,
    Login,
}

pub fn start(force_demo: bool, config_loads: bool) -> (r: Start)
    ensures
        force_demo ==> r is Demo,
        !force_demo && config_loads ==> r is Live,
        !force_demo && !config_loads ==> r is Login,
{
    if force_demo {
        Start::Demo
    } else if config_loads {
        Start::Live
    } else {
        Start::Login
    }
}

/// Every palette entry leads somewhere once an issue is selected.
pub proof fn law_every_command_dispatches(selected: Seq<char>)
    requires
        selected.len() > 0,
    ensures
        forall|i: int| 0 <= i < commands().len() ==> #[trigger] palette_action_for(commands()[i].0, selected) is Some,
{
}

} // verus!
