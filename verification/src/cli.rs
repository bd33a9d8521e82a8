//! What the command-line front end decides and prints: the command read from
//! the arguments, and the text of each answer.
use vstd::prelude::*;
use crate::model::{
    assignee_name, issue_type_of, priority_name, status_name, Comment, Issue, IssueView,
    Transition, TransitionField, TransitionFieldView, User, UserView,
};
use crate::text::{
    chars_of, decimal, join, joined, owned, push_char, push_decimal, push_str, str_eq, string_of, trim, trim_ws,
};

verus! {

/// `s` shortened to `n` characters: longer text keeps `n - 1` characters and
/// ends in `…`.
pub open spec fn truncated(s: Seq<char>, n: nat) -> Seq<char> {
    if s.len() <= n {
        s
    } else if n == 0 {
        seq!['…']
    } else {
        s.take(n - 1) + seq!['…']
    }
}

pub fn truncate(s: &str, n: usize) -> (r: String)
    ensures
        r@ == truncated(s@, n as nat),
        n > 0 ==> r@.len() <= n,
        s@.len() <= n ==> r@ == s@,
{
    let v = chars_of(s);
    if v.len() <= n {
        owned(s)
    } else {
        let keep: usize = if n == 0 { 0 } else { n - 1 };
        let mut r = string_of(&v, 0, keep);
        push_char(&mut r, '…');
        assert(v@.subrange(0, keep as int) =~= v@.take(keep as int));
        r
    }
}

/// Argument `i`, or the usage line as the error.
pub fn arg<'a>(args: &'a Vec<String>, i: usize, usage: &str) -> (r: Result<&'a str, String>)
    ensures
        i < args@.len() ==> (r matches Ok(a) && a@ == args@[i as int]@),
        i >= args@.len() ==> (r matches Err(e) && e@ == "usage: lient "@ + usage@),
{
    if i < args.len() {
        Ok(args[i].as_str())
    } else {
        let mut e = owned("usage: lient ");
        push_str(&mut e, usage);
        Err(e)
    }
}

/// `s` padded with spaces on the right to `w` characters (like `{:<w}`).
pub open spec fn pad(s: Seq<char>, w: nat) -> Seq<char> {
    if s.len() < w {
        s + Seq::new((w - s.len()) as nat, |i: int| ' ')
    } else {
        s
    }
}

fn push_padded(out: &mut String, s: &str, w: usize)
    ensures
        final(out)@ == old(out)@ + pad(s@, w as nat),
{
    let n = chars_of(s).len();
    push_str(out, s);
    if n < w {
        let mut k = n;
        let ghost base = old(out)@ + s@;
        while k < w
            invariant
                n <= k <= w,
                n == s@.len(),
                out@ == base + Seq::new((k - n) as nat, |i: int| ' '),
            decreases w - k,
        {
            push_char(out, ' ');
            assert(out@ =~= base + Seq::new((k + 1 - n) as nat, |i: int| ' '));
            k = k + 1;
        }
    } else {
        assert(old(out)@ + pad(s@, w as nat) == old(out)@ + s@);
    }
}

/// One row of `lient list`: key, status, priority, summary in columns.
pub open spec fn list_line(i: IssueView) -> Seq<char> {
    pad(i.key, 10) + seq![' '] + pad(truncated(status_name(i), 13), 13) + seq![' '] + pad(
        truncated(priority_name(i), 8),
        8,
    ) + seq![' '] + i.fields.summary
}

pub fn list_line_of(i: &Issue) -> (r: String)
    ensures
        r@ == list_line(i.deep_view()),
{
    let mut r = String::new();
    push_padded(&mut r, i.key.as_str(), 10);
    push_char(&mut r, ' ');
    push_padded(&mut r, truncate(i.status(), 13).as_str(), 13);
    push_char(&mut r, ' ');
    push_padded(&mut r, truncate(i.priority(), 8).as_str(), 8);
    push_char(&mut r, ' ');
    push_str(&mut r, i.summary());
    assert(r@ =~= list_line(i.deep_view()));
    r
}

/// `whoami`: display name, email and id (account id, else user name).
pub open spec fn whoami_line(u: UserView) -> Seq<char> {
    "Connected as "@ + u.display_name + " <"@ + u.email + ">  ["@ + (if u.account_id.len() == 0 {
        u.name
    } else {
        u.account_id
    }) + "]"@
}

pub fn whoami_line_of(u: &User) -> (r: String)
    ensures
        r@ == whoami_line(u.deep_view()),
{
    let mut r = owned("Connected as ");
    push_str(&mut r, u.display_name.as_str());
    push_str(&mut r, " <");
    push_str(&mut r, u.email.as_str());
    push_str(&mut r, ">  [");
    if u.account_id.as_str().is_empty() {
        push_str(&mut r, u.name.as_str());
    } else {
        push_str(&mut r, u.account_id.as_str());
    }
    push_str(&mut r, "]");
    r
}

/// Heading of `view`: key, status and summary.
pub open spec fn view_heading(i: IssueView) -> Seq<char> {
    i.key + "  ["@ + status_name(i) + "]  "@ + i.fields.summary
}

/// Second line of `view`: type, priority, assignee.
pub open spec fn view_meta(i: IssueView) -> Seq<char> {
    "type: "@ + issue_type_of(i) + "   priority: "@ + priority_name(i) + "   assignee: "@ + assignee_name(i)
}

pub fn view_lines_of(i: &Issue) -> (r: (String, String))
    ensures
        r.0@ == view_heading(i.deep_view()),
        r.1@ == view_meta(i.deep_view()),
{
    let mut a = owned(i.key.as_str());
    push_str(&mut a, "  [");
    push_str(&mut a, i.status());
    push_str(&mut a, "]  ");
    push_str(&mut a, i.summary());
    let mut b = owned("type: ");
    push_str(&mut b, i.issue_type());
    push_str(&mut b, "   priority: ");
    push_str(&mut b, i.priority());
    push_str(&mut b, "   assignee: ");
    push_str(&mut b, i.assignee());
    (a, b)
}

/// Heading of the comment list.
pub open spec fn comments_heading(total: u32) -> Seq<char> {
    "--- "@ + decimal(total as nat) + " comment(s) ---"@
}

pub fn comments_heading_of(total: u32) -> (r: String)
    ensures
        r@ == comments_heading(total),
{
    let mut r = owned("--- ");
    push_decimal(&mut r, total as u128);
    push_str(&mut r, " comment(s) ---");
    r
}

/// One comment of `view`: when, who (`?` when unknown), trimmed body.
pub open spec fn comment_line(c: crate::model::CommentView) -> Seq<char> {
    seq!['['] + c.created + "] "@ + (match c.author {
        Some(a) => a.display_name,
        None => "?"@,
    }) + ": "@ + trim_ws(c.body)
}

pub fn comment_line_of(c: &Comment) -> (r: String)
    ensures
        r@ == comment_line(c.deep_view()),
{
    let mut r = owned("[");
    proof {
        reveal_strlit("[");
        assert("["@ =~= seq!['[']);
    }
    push_str(&mut r, c.created.as_str());
    push_str(&mut r, "] ");
    match &c.author {
        Some(a) => push_str(&mut r, a.display_name.as_str()),
        None => push_str(&mut r, "?"),
    }
    push_str(&mut r, ": ");
    push_str(&mut r, trim(c.body.as_str()).as_str());
    r
}

/// Keys of the required fields, in order.
pub open spec fn required_keys(fs: Seq<(Seq<char>, TransitionFieldView)>) -> Seq<Seq<char>>
    decreases fs.len(),
{
    if fs.len() == 0 {
        seq![]
    } else if fs.last().1.required {
        required_keys(fs.drop_last()).push(fs.last().0)
    } else {
        required_keys(fs.drop_last())
    }
}

/// The keys listed as required are exactly those of the fields whose
/// `required` flag is set, in field order: each listed key names a required
/// field, and every required field is listed.
pub proof fn law_required_keys_are_the_required_fields(fs: Seq<(Seq<char>, TransitionFieldView)>)
    ensures
        required_keys(fs) == fs.filter(|f: (Seq<char>, TransitionFieldView)| f.1.required).map_values(
            |f: (Seq<char>, TransitionFieldView)| f.0,
        ),
        forall|k: int| 0 <= k < required_keys(fs).len() ==> exists|j: int| 0 <= j < fs.len() && fs[j].1.required
            && fs[j].0 == #[trigger] required_keys(fs)[k],
        forall|j: int| 0 <= j < fs.len() && (#[trigger] fs[j]).1.required ==> required_keys(fs).contains(fs[j].0),
    decreases fs.len(),
{
    reveal(Seq::filter);
    let pred = |f: (Seq<char>, TransitionFieldView)| f.1.required;
    let key = |f: (Seq<char>, TransitionFieldView)| f.0;
    if fs.len() == 0 {
        assert(fs.filter(pred).map_values(key) =~= Seq::<Seq<char>>::empty());
    } else {
        let init = fs.drop_last();
        law_required_keys_are_the_required_fields(init);
        let r0 = required_keys(init);
        let r = required_keys(fs);
        if fs.last().1.required {
            assert(fs.filter(pred) == init.filter(pred).push(fs.last()));
            assert(init.filter(pred).push(fs.last()).map_values(key) =~= init.filter(pred).map_values(key).push(fs.last().0));
            assert(r == r0.push(fs.last().0));
        } else {
            assert(fs.filter(pred) == init.filter(pred));
            assert(r == r0);
        }
        assert forall|k: int| 0 <= k < r.len() implies exists|j: int| 0 <= j < fs.len() && fs[j].1.required
            && fs[j].0 == #[trigger] r[k] by {
            if k < r0.len() {
                assert(r[k] == r0[k]);
                let j = choose|j: int| 0 <= j < init.len() && init[j].1.required && init[j].0 == #[trigger] r0[k];
                assert(fs[j] == init[j]);
            } else {
                assert(fs[fs.len() - 1].1.required && fs[fs.len() - 1].0 == r[k]);
            }
        }
        assert forall|j: int| 0 <= j < fs.len() && (#[trigger] fs[j]).1.required implies r.contains(fs[j].0) by {
            if j < fs.len() - 1 {
                assert(init[j] == fs[j]);
                assert(r0.contains(init[j].0));
                let k = choose|k: int| 0 <= k < r0.len() && r0[k] == init[j].0;
                assert(r[k] == r0[k]);
            } else {
                assert(r[r.len() - 1] == fs[j].0);
            }
        }
    }
}

/// The keys of the required fields, in order.
fn required_keys_of(fs: &Vec<(String, TransitionField)>) -> (r: Vec<String>)
    ensures
        r.deep_view() == required_keys(fs.deep_view()),
{
    let mut r: Vec<String> = Vec::new();
    let mut i: usize = 0;
    while i < fs.len()
        invariant
            i <= fs@.len(),
            r.deep_view() == required_keys(fs.deep_view().take(i as int)),
        decreases fs.len() - i,
    {
        let ghost all = fs.deep_view();
        assert(all.take(i + 1).drop_last() =~= all.take(i as int));
        if fs[i].1.required {
            let k = owned(fs[i].0.as_str());
            r.push(k);
            assert(r.deep_view() =~= required_keys(all.take(i as int)).push(all[i as int].0));
        }
        i = i + 1;
    }
    assert(fs.deep_view().take(fs.len() as int) =~= fs.deep_view());
    r
}

/// The required field keys of a transition joined by `, `.
pub fn required_list(t: &Transition) -> (r: String)
    ensures
        r@ == joined(required_keys(t.fields.deep_view()), ", "@),
{
    let keys = required_keys_of(&t.fields);
    join(&keys, ", ")
}

/// One transition of `transitions`: id, name, target (`?` when unknown) and
/// the required fields, if any.
pub open spec fn transition_line(t: crate::model::TransitionView) -> Seq<char> {
    let req = joined(required_keys(t.fields), ", "@);
    pad(t.id, 4) + seq![' '] + t.name + " → "@ + (match t.to {
        Some(n) => n.name,
        None => "?"@,
    }) + (if req.len() == 0 {
        seq![]
    } else {
        "  (requires: "@ + req + ")"@
    })
}

pub fn transition_line_of(t: &Transition) -> (r: String)
    ensures
        r@ == transition_line(t.deep_view()),
{
    let mut r = String::new();
    push_padded(&mut r, t.id.as_str(), 4);
    push_char(&mut r, ' ');
    push_str(&mut r, t.name.as_str());
    push_str(&mut r, " → ");
    match &t.to {
        Some(n) => push_str(&mut r, n.name.as_str()),
        None => push_str(&mut r, "?"),
    }
    let req = required_list(t);
    if !req.as_str().is_empty() {
        push_str(&mut r, "  (requires: ");
        push_str(&mut r, req.as_str());
        push_str(&mut r, ")");
    }
    assert(r@ =~= transition_line(t.deep_view()));
    r
}

/// The lines `lient list` prints: one per issue, or a cheerful note when
/// there is none.
pub open spec fn list_report(issues: Seq<IssueView>) -> Seq<Seq<char>> {
    if issues.len() == 0 {
        seq![no_open_issues()]
    } else {
        issues.map_values(|i: IssueView| list_line(i))
    }
}

pub open spec fn no_open_issues() -> Seq<char> {
    "No open issues assigned to you. 🎉"@
}

pub fn list_report_of(issues: &Vec<Issue>) -> (r: Vec<String>)
    ensures
        r.deep_view() == list_report(issues.deep_view()),
{
    let mut r: Vec<String> = Vec::new();
    if issues.len() == 0 {
        r.push(owned("No open issues assigned to you. 🎉"));
        assert(r.deep_view() =~= list_report(issues.deep_view()));
        return r;
    }
    let mut k: usize = 0;
    while k < issues.len()
        invariant
            k <= issues@.len(),
            r.deep_view() =~= issues.deep_view().take(k as int).map_values(|i: IssueView| list_line(i)),
        decreases issues.len() - k,
    {
        let line = list_line_of(&issues[k]);
        let ghost before = r.deep_view();
        r.push(line);
        assert(r.deep_view() =~= before.push(line@));
        assert(issues.deep_view()[k as int] == issues@[k as int].deep_view());
        assert(r.deep_view() =~= issues.deep_view().take(k + 1).map_values(|i: IssueView| list_line(i)));
        k = k + 1;
    }
    assert(issues.deep_view().take(issues.len() as int) =~= issues.deep_view());
    r
}

/// The comment lines of `view`, in order.
pub open spec fn comment_lines(cs: Seq<crate::model::CommentView>) -> Seq<Seq<char>> {
    cs.map_values(|c: crate::model::CommentView| comment_line(c))
}

/// The lines `lient view` prints: heading, meta, the trimmed description set
/// off by blank lines, then the comments under their heading.
pub open spec fn view_report(i: IssueView) -> Seq<Seq<char>> {
    seq![view_heading(i), view_meta(i)] + (match i.fields.description {
        Some(d) => seq![seq!['\n'] + trim_ws(d) + seq!['\n']],
        None => seq![],
    }) + (match i.fields.comment {
        Some(p) => seq![comments_heading(p.total)] + comment_lines(p.comments),
        None => seq![],
    })
}

pub fn view_report_of(i: &Issue) -> (r: Vec<String>)
    ensures
        r.deep_view() == view_report(i.deep_view()),
{
    let (a, b) = view_lines_of(i);
    let ghost iv = i.deep_view();
    let mut r: Vec<String> = Vec::new();
    r.push(a);
    r.push(b);
    let ghost head = seq![view_heading(iv), view_meta(iv)];
    assert(r.deep_view() =~= head);
    match &i.fields.description {
        Some(d) => {
            let mut t = String::new();
            push_char(&mut t, '\n');
            push_str(&mut t, trim(d.as_str()).as_str());
            push_char(&mut t, '\n');
            assert(iv.fields.description == Some(d@));
            assert(t@ =~= seq!['\n'] + trim_ws(d@) + seq!['\n']);
            let ghost before = r.deep_view();
            r.push(t);
            assert(r.deep_view() =~= before.push(t@));
        },
        None => {},
    }
    let ghost mid = head + (match iv.fields.description {
        Some(d) => seq![seq!['\n'] + trim_ws(d) + seq!['\n']],
        None => seq![],
    });
    assert(r.deep_view() =~= mid);
    match &i.fields.comment {
        Some(p) => {
            let ghost cs = p.comments.deep_view();
            assert(iv.fields.comment == Some(p.deep_view()));
            let h = comments_heading_of(p.total);
            let ghost before = r.deep_view();
            r.push(h);
            assert(r.deep_view() =~= before.push(h@));
            let mut k: usize = 0;
            while k < p.comments.len()
                invariant
                    k <= p.comments@.len(),
                    cs == p.comments.deep_view(),
                    r.deep_view() =~= mid + seq![comments_heading(p.total)] + comment_lines(cs.take(k as int)),
                decreases p.comments.len() - k,
            {
                let line = comment_line_of(&p.comments[k]);
                let ghost before = r.deep_view();
                r.push(line);
                assert(r.deep_view() =~= before.push(line@));
                assert(cs[k as int] == p.comments@[k as int].deep_view());
                assert(comment_lines(cs.take(k + 1)) =~= comment_lines(cs.take(k as int)).push(
                    comment_line(cs[k as int]),
                ));
                k = k + 1;
            }
            assert(cs.take(p.comments.len() as int) =~= cs);
        },
        None => {},
    }
    assert(r.deep_view() =~= view_report(iv));
    r
}

/// `view` prints the heading, the meta line, the description when there is
/// one, and then, under the comments heading, exactly one line per comment of
/// the issue's comment page, in order.
pub proof fn law_view_lists_every_comment(i: IssueView)
    ensures
        ({
            let d: int = if i.fields.description is Some { 1 } else { 0 };
            &&& view_report(i)[0] == view_heading(i)
            &&& view_report(i)[1] == view_meta(i)
            &&& match i.fields.comment {
                Some(p) => view_report(i).len() == 3 + d + p.comments.len() && view_report(i)[2 + d]
                    == comments_heading(p.total) && forall|k: int| 0 <= k < p.comments.len() ==> view_report(i)[3 + d + k]
                    == comment_line(#[trigger] p.comments[k]),
                None => view_report(i).len() == 2 + d,
            }
        }),
{
    let head = seq![view_heading(i), view_meta(i)] + (match i.fields.description {
        Some(d) => seq![seq!['\n'] + trim_ws(d) + seq!['\n']],
        None => seq![],
    });
    let d: int = if i.fields.description is Some { 1 } else { 0 };
    assert(head.len() == 2 + d);
    assert(head[0] == view_heading(i) && head[1] == view_meta(i));
    match i.fields.comment {
        Some(p) => {
            let tail = seq![comments_heading(p.total)] + comment_lines(p.comments);
            assert(view_report(i) == head + tail);
            assert(tail[0] == comments_heading(p.total));
            assert forall|k: int| 0 <= k < p.comments.len() implies view_report(i)[3 + d + k] == comment_line(
                #[trigger] p.comments[k],
            ) by {
                assert(tail[1 + k] == comment_lines(p.comments)[k]);
                assert((head + tail)[2 + d + 1 + k] == tail[1 + k]);
            }
            assert((head + tail)[0] == head[0] && (head + tail)[1] == head[1]);
        },
        None => {
            assert(view_report(i) =~= head);
        },
    }
}

/// The lines `lient transitions` prints, one per transition.
pub open spec fn transitions_report(ts: Seq<crate::model::TransitionView>) -> Seq<Seq<char>> {
    ts.map_values(|t: crate::model::TransitionView| transition_line(t))
}

pub fn transitions_report_of(ts: &Vec<Transition>) -> (r: Vec<String>)
    ensures
        r.deep_view() == transitions_report(ts.deep_view()),
{
    let mut r: Vec<String> = Vec::new();
    let mut k: usize = 0;
    while k < ts.len()
        invariant
            k <= ts@.len(),
            r.deep_view() =~= transitions_report(ts.deep_view().take(k as int)),
        decreases ts.len() - k,
    {
        let line = transition_line_of(&ts[k]);
        let ghost before = r.deep_view();
        r.push(line);
        assert(r.deep_view() =~= before.push(line@));
        assert(ts.deep_view()[k as int] == ts@[k as int].deep_view());
        assert(transitions_report(ts.deep_view().take(k + 1)) =~= transitions_report(
            ts.deep_view().take(k as int),
        ).push(transition_line(ts.deep_view()[k as int])));
        k = k + 1;
    }
    assert(ts.deep_view().take(ts.len() as int) =~= ts.deep_view());
    r
}

/// What the command line asks for.
pub enum Command {
    Whoami,
    List,
    View(String),
    Transitions(String),
    Comment(String, String),
    Open(String),
}

pub enum CommandView {
    Whoami,
    List,
    View(Seq<char>),
    Transitions(Seq<char>),
    Comment(Seq<char>, Seq<char>),
    Open(Seq<char>),
}

impl View for Command {
    type V = CommandView;

    open spec fn view(&self) -> CommandView {
        match self {
            Command::Whoami => CommandView::Whoami,
            Command::List => CommandView::List,
            Command::View(k) => CommandView::View(k@),
            Command::Transitions(k) => CommandView::Transitions(k@),
            Command::Comment(k, b) => CommandView::Comment(k@, b@),
            Command::Open(k) => CommandView::Open(k@),
        }
    }
}

/// Whether an argument is the demo switch.
pub open spec fn is_demo_flag(a: Seq<char>) -> bool {
    a == "--demo"@
}

/// The arguments without any demo switch, in order.
pub open spec fn plain_args(args: Seq<Seq<char>>) -> Seq<Seq<char>>
    decreases args.len(),
{
    if args.len() == 0 {
        seq![]
    } else if is_demo_flag(args.last()) {
        plain_args(args.drop_last())
    } else {
        plain_args(args.drop_last()).push(args.last())
    }
}

/// Demo mode: asked for by the environment or by a `--demo` argument.
pub open spec fn demo_requested(args: Seq<Seq<char>>, from_env: bool) -> bool {
    from_env || exists|i: int| 0 <= i < args.len() && is_demo_flag(#[trigger] args[i])
}

/// Splits off the demo switch: whether demo mode is on, and the remaining
/// arguments.
pub fn split_demo(args: &Vec<String>, from_env: bool) -> (r: (bool, Vec<String>))
    ensures
        r.0 == demo_requested(args.deep_view(), from_env),
        r.1.deep_view() == plain_args(args.deep_view()),
{
    let ghost all = args.deep_view();
    let mut demo = from_env;
    let mut rest: Vec<String> = Vec::new();
    let mut k: usize = 0;
    while k < args.len()
        invariant
            k <= args@.len(),
            all == args.deep_view(),
            rest.deep_view() == plain_args(all.take(k as int)),
            demo == (from_env || exists|i: int| 0 <= i < k && is_demo_flag(#[trigger] all[i])),
        decreases args.len() - k,
    {
        assert(all.take(k + 1).drop_last() =~= all.take(k as int));
        assert(all[k as int] == args@[k as int]@);
        if str_eq(args[k].as_str(), "--demo") {
            demo = true;
        } else {
            let a = owned(args[k].as_str());
            let ghost before = rest.deep_view();
            rest.push(a);
            assert(rest.deep_view() =~= before.push(a@));
        }
        k = k + 1;
    }
    assert(all.take(args.len() as int) =~= all);
    (demo, rest)
}

/// The key argument, or the usage line.
pub open spec fn key_or_usage(args: Seq<Seq<char>>, usage: Seq<char>) -> Result<Seq<char>, Seq<char>> {
    if args.len() > 1 {
        Ok(args[1])
    } else {
        Err("usage: lient "@ + usage)
    }
}

/// The command the arguments (demo switch removed) ask for; with none, `list`.
pub open spec fn command_of(args: Seq<Seq<char>>) -> Result<CommandView, Seq<char>> {
    let cmd = if args.len() == 0 { "list"@ } else { args[0] };
    if cmd == "whoami"@ {
        Ok(CommandView::Whoami)
    } else if cmd == "list"@ {
        Ok(CommandView::List)
    } else if cmd == "view"@ {
        match key_or_usage(args, "view <KEY>"@) {
            Ok(k) => Ok(CommandView::View(k)),
            Err(e) => Err(e),
        }
    } else if cmd == "transitions"@ {
        match key_or_usage(args, "transitions <KEY>"@) {
            Ok(k) => Ok(CommandView::Transitions(k)),
            Err(e) => Err(e),
        }
    } else if cmd == "comment"@ {
        match key_or_usage(args, "comment <KEY> <text>"@) {
            Ok(k) => {
                let body = joined(args.skip(2), " "@);
                if body.len() == 0 {
                    Err("comment <KEY> <text> — text required"@)
                } else {
                    Ok(CommandView::Comment(k, body))
                }
            },
            Err(e) => Err(e),
        }
    } else if cmd == "open"@ {
        match key_or_usage(args, "open <KEY>"@) {
            Ok(k) => Ok(CommandView::Open(k)),
            Err(e) => Err(e),
        }
    } else {
        Err("unknown command '"@ + cmd + "' — try: whoami | list | view | transitions | comment | open"@)
    }
}

fn key_arg(args: &Vec<String>, usage: &str) -> (r: Result<String, String>)
    ensures
        match r {
            Ok(k) => key_or_usage(args.deep_view(), usage@) == Ok::<Seq<char>, Seq<char>>(k@),
            Err(e) => key_or_usage(args.deep_view(), usage@) == Err::<Seq<char>, Seq<char>>(e@),
        },
{
    match arg(args, 1, usage) {
        Ok(k) => {
            assert(args.deep_view()[1] == args@[1]@);
            Ok(owned(k))
        },
        Err(e) => Err(e),
    }
}

/// `args[from..]` joined by single spaces.
fn rest_joined(args: &Vec<String>, from: usize) -> (r: String)
    requires
        from <= args@.len(),
    ensures
        r@ == joined(args.deep_view().skip(from as int), " "@),
{
    let mut tail: Vec<String> = Vec::new();
    let mut k: usize = from;
    while k < args.len()
        invariant
            from <= k <= args@.len(),
            tail.deep_view() =~= args.deep_view().subrange(from as int, k as int),
        decreases args.len() - k,
    {
        let a = owned(args[k].as_str());
        let ghost before = tail.deep_view();
        tail.push(a);
        assert(tail.deep_view() =~= before.push(a@));
        k = k + 1;
    }
    join(&tail, " ")
}

/// Reads the command from the arguments (demo switch removed).
pub fn parse_command(args: &Vec<String>) -> (r: Result<Command, String>)
    ensures
        match r {
            Ok(c) => command_of(args.deep_view()) == Ok::<CommandView, Seq<char>>(c@),
            Err(e) => command_of(args.deep_view()) == Err::<CommandView, Seq<char>>(e@),
        },
{
    let ghost a = args.deep_view();
    let cmd: &str = if args.len() == 0 {
        "list"
    } else {
        args[0].as_str()
    };
    assert(args.len() > 0 ==> a[0] == args@[0]@);
    if str_eq(cmd, "whoami") {
        Ok(Command::Whoami)
    } else if str_eq(cmd, "list") {
        Ok(Command::List)
    } else if str_eq(cmd, "view") {
        match key_arg(args, "view <KEY>") {
            Ok(k) => Ok(Command::View(k)),
            Err(e) => Err(e),
        }
    } else if str_eq(cmd, "transitions") {
        match key_arg(args, "transitions <KEY>") {
            Ok(k) => Ok(Command::Transitions(k)),
            Err(e) => Err(e),
        }
    } else if str_eq(cmd, "comment") {
        match key_arg(args, "comment <KEY> <text>") {
            Ok(k) => {
                let body = rest_joined(args, 2);
                if body.as_str().is_empty() {
                    Err(owned("comment <KEY> <text> — text required"))
                } else {
                    Ok(Command::Comment(k, body))
                }
            },
            Err(e) => Err(e),
        }
    } else if str_eq(cmd, "open") {
        match key_arg(args, "open <KEY>") {
            Ok(k) => Ok(Command::Open(k)),
            Err(e) => Err(e),
        }
    } else {
        let mut e = owned("unknown command '");
        push_str(&mut e, cmd);
        push_str(&mut e, "' — try: whoami | list | view | transitions | comment | open");
        Err(e)
    }
}

} // verus!
