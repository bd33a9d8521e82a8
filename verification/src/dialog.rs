//! The desktop app's field dialogs: the required fields of a transition, the
//! edit dialog prefilled from the issue, the "New issue" dialog, what each
//! input changes, and what submitting asks for.
use vstd::prelude::*;
use crate::client::{transition_field_json, transition_field_view};
use crate::json::{
    entries_view, entry_of, find_entry, lemma_with_entry_view, set_entry, set_view, string_members,
    strings_in, Json, JsonView,
};
use crate::model::{
    label_of, AllowedValue, AllowedValueView, CreateOption, CreateOptionView, FieldSchema,
    FieldSchemaView, Transition, TransitionField, TransitionFieldView, TransitionView, User, UserView,
};
use crate::text::{
    chars_of, has_prefix, join, joined, owned, push_str, split_chars, split_on, starts_with, str_eq,
    string_of, trim, trim_ws,
};

verus! {

/// One row of a field dialog: label, pick-list options (empty for free
/// text) and the value shown.
pub struct FieldRow {
    pub name: String,
    pub options: Vec<String>,
    pub is_select: bool,
    pub value: String,
}

pub struct FieldRowView {
    pub name: Seq<char>,
    pub options: Seq<Seq<char>>,
    pub is_select: bool,
    pub value: Seq<char>,
}

impl DeepView for FieldRow {
    type V = FieldRowView;

    open spec fn deep_view(&self) -> FieldRowView {
        FieldRowView {
            name: self.name@,
            options: self.options.deep_view(),
            is_select: self.is_select,
            value: self.value@,
        }
    }
}

/// One field of a pending dialog: its Jira key, metadata, the value to submit
/// (an allowed value's id for pick-lists, else the text) and whether the user
/// changed it.
pub struct PField {
    pub key: String,
    pub field: TransitionField,
    pub value: String,
    pub touched: bool,
}

pub struct PFieldView {
    pub key: Seq<char>,
    pub field: TransitionFieldView,
    pub value: Seq<char>,
    pub touched: bool,
}

impl DeepView for PField {
    type V = PFieldView;

    open spec fn deep_view(&self) -> PFieldView {
        PFieldView {
            key: self.key@,
            field: self.field.deep_view(),
            value: self.value@,
            touched: self.touched,
        }
    }
}

/// What a dialog does on submit.
pub enum PendingKind {
    /// Move through the transition with this id (all fields submitted).
    Transition(String),
    /// Edit the issue (only touched fields submitted).
    Edit,
    /// Create an issue.
    Create,
}

pub enum PendingKindView {
    Transition(Seq<char>),
    Edit,
    Create,
}

impl View for PendingKind {
    type V = PendingKindView;

    open spec fn view(&self) -> PendingKindView {
        match self {
            PendingKind::Transition(t) => PendingKindView::Transition(t@),
            PendingKind::Edit => PendingKindView::Edit,
            PendingKind::Create => PendingKindView::Create,
        }
    }
}

/// An open field dialog: what it is for, the issue key and its fields.
pub struct Pending {
    pub kind: PendingKind,
    pub key: String,
    pub fields: Vec<PField>,
}

pub struct PendingView {
    pub kind: PendingKindView,
    pub key: Seq<char>,
    pub fields: Seq<PFieldView>,
}

impl DeepView for Pending {
    type V = PendingView;

    open spec fn deep_view(&self) -> PendingView {
        PendingView { kind: self.kind@, key: self.key@, fields: self.fields.deep_view() }
    }
}

/// A dialog to show: title, rows, and the state kept until it is submitted.
pub struct Dialog {
    pub title: String,
    pub rows: Vec<FieldRow>,
    pub pending: Pending,
}

pub struct DialogView {
    pub title: Seq<char>,
    pub rows: Seq<FieldRowView>,
    pub pending: PendingView,
}

impl DeepView for Dialog {
    type V = DialogView;

    open spec fn deep_view(&self) -> DialogView {
        DialogView { title: self.title@, rows: self.rows.deep_view(), pending: self.pending.deep_view() }
    }
}

/// The labels of a field's allowed values.
pub open spec fn option_labels(f: TransitionFieldView) -> Seq<Seq<char>> {
    f.allowed_values.map_values(|a: AllowedValueView| label_of(a))
}

/// The row showing field `f` under `name` with `value` on display.
pub open spec fn field_row(name: Seq<char>, f: TransitionFieldView, value: Seq<char>) -> FieldRowView {
    FieldRowView { name, options: option_labels(f), is_select: f.allowed_values.len() > 0, value }
}

/// The default choice of a field, as (id, label): its first allowed value,
/// nothing for free text.
pub open spec fn first_choice(f: TransitionFieldView) -> (Seq<char>, Seq<char>) {
    if f.allowed_values.len() > 0 {
        (f.allowed_values[0].id, label_of(f.allowed_values[0]))
    } else {
        (seq![], seq![])
    }
}

/// The dialog asking for a transition's required fields, each preset to its
/// first option.
pub open spec fn transition_dialog(
    key: Seq<char>,
    tid: Seq<char>,
    req: Seq<(Seq<char>, TransitionFieldView)>,
) -> DialogView {
    DialogView {
        title: "Confirm: "@ + key,
        rows: req.map_values(
            |e: (Seq<char>, TransitionFieldView)| field_row(e.1.name, e.1, first_choice(e.1).1),
        ),
        pending: PendingView {
            kind: PendingKindView::Transition(tid),
            key,
            fields: req.map_values(
                |e: (Seq<char>, TransitionFieldView)|
                    PFieldView { key: e.0, field: e.1, value: first_choice(e.1).0, touched: false },
            ),
        },
    }
}

/// The labels of `avs`.
fn labels_of(avs: &Vec<AllowedValue>) -> (r: Vec<String>)
    ensures
        r.deep_view() == avs.deep_view().map_values(|a: AllowedValueView| label_of(a)),
{
    let mut r: Vec<String> = Vec::new();
    let mut k: usize = 0;
    while k < avs.len()
        invariant
            k <= avs@.len(),
            r.deep_view() =~= avs.deep_view().take(k as int).map_values(|a: AllowedValueView| label_of(a)),
        decreases avs.len() - k,
    {
        let l = owned(avs[k].label());
        let ghost before = r.deep_view();
        r.push(l);
        assert(r.deep_view() =~= before.push(l@));
        assert(avs.deep_view()[k as int] == avs@[k as int].deep_view());
        assert(avs.deep_view().take(k + 1).map_values(|a: AllowedValueView| label_of(a)) =~= avs.deep_view().take(
            k as int,
        ).map_values(|a: AllowedValueView| label_of(a)).push(label_of(avs.deep_view()[k as int])));
        k = k + 1;
    }
    assert(avs.deep_view().take(avs@.len() as int) =~= avs.deep_view());
    r
}

/// The default choice of a field (see [`first_choice`]).
fn first_choice_of(f: &TransitionField) -> (r: (String, String))
    ensures
        r.0@ == first_choice(f.deep_view()).0,
        r.1@ == first_choice(f.deep_view()).1,
{
    if f.allowed_values.len() > 0 {
        assert(f.deep_view().allowed_values[0] == f.allowed_values@[0].deep_view());
        (owned(f.allowed_values[0].id.as_str()), owned(f.allowed_values[0].label()))
    } else {
        (String::new(), String::new())
    }
}

/// The row for field `f` under `name`, showing `value`.
fn field_row_of(name: String, f: &TransitionField, value: String) -> (r: FieldRow)
    ensures
        r.deep_view() == field_row(name@, f.deep_view(), value@),
{
    FieldRow { name, options: labels_of(&f.allowed_values), is_select: f.has_options(), value }
}

/// Builds the dialog for a transition's required fields `req`.
pub fn transition_dialog_of(key: &str, tid: &str, req: Vec<(String, TransitionField)>) -> (r: Dialog)
    ensures
        r.deep_view() == transition_dialog(key@, tid@, req.deep_view()),
{
    let ghost rv = req.deep_view();
    let mut rows: Vec<FieldRow> = Vec::new();
    let mut fields: Vec<PField> = Vec::new();
    let mut k: usize = 0;
    while k < req.len()
        invariant
            k <= req@.len(),
            rv == req.deep_view(),
            rows.deep_view() =~= rv.take(k as int).map_values(
                |e: (Seq<char>, TransitionFieldView)| field_row(e.1.name, e.1, first_choice(e.1).1),
            ),
            fields.deep_view() =~= rv.take(k as int).map_values(
                |e: (Seq<char>, TransitionFieldView)|
                    PFieldView { key: e.0, field: e.1, value: first_choice(e.1).0, touched: false },
            ),
        decreases req.len() - k,
    {
        let ghost e = rv[k as int];
        assert(e == req@[k as int].deep_view());
        let (id, label) = first_choice_of(&req[k].1);
        let row = field_row_of(owned(req[k].1.name.as_str()), &req[k].1, label);
        let pf = PField { key: owned(req[k].0.as_str()), field: req[k].1.clone(), value: id, touched: false };
        let ghost rb = rows.deep_view();
        let ghost fb = fields.deep_view();
        rows.push(row);
        fields.push(pf);
        assert(rows.deep_view() =~= rb.push(row.deep_view()));
        assert(fields.deep_view() =~= fb.push(pf.deep_view()));
        assert(rv.take(k + 1) =~= rv.take(k as int).push(e));
        k = k + 1;
    }
    assert(rv.take(req@.len() as int) =~= rv);
    let mut title = owned("Confirm: ");
    push_str(&mut title, key);
    Dialog {
        title,
        rows,
        pending: Pending { kind: PendingKind::Transition(owned(tid)), key: owned(key), fields },
    }
}

/// The first transition with id `tid`.
pub open spec fn transition_with_id(ts: Seq<TransitionView>, tid: Seq<char>) -> Option<TransitionView>
    decreases ts.len(),
{
    if ts.len() == 0 {
        None
    } else if ts[0].id == tid {
        Some(ts[0])
    } else {
        transition_with_id(ts.skip(1), tid)
    }
}

/// The required entries of a field list, in order.
pub open spec fn required_entries(fs: Seq<(Seq<char>, TransitionFieldView)>) -> Seq<
    (Seq<char>, TransitionFieldView),
>
    decreases fs.len(),
{
    if fs.len() == 0 {
        seq![]
    } else if fs.last().1.required {
        required_entries(fs.drop_last()).push(fs.last())
    } else {
        required_entries(fs.drop_last())
    }
}

/// The required fields of the transition `tid` among `ts`; none when there is
/// no such transition.
pub open spec fn required_fields(ts: Seq<TransitionView>, tid: Seq<char>) -> Seq<
    (Seq<char>, TransitionFieldView),
> {
    match transition_with_id(ts, tid) {
        Some(t) => required_entries(t.fields),
        None => seq![],
    }
}

/// What choosing a transition leads to: run it at once, or first ask for its
/// required fields.
pub enum TransitionStep {
    Execute { key: String, tid: String },
    Ask(Dialog),
}

fn transition_index(ts: &Vec<Transition>, tid: &str) -> (r: Option<usize>)
    ensures
        match r {
            Some(i) => i < ts@.len() && transition_with_id(ts.deep_view(), tid@) == Some(
                ts.deep_view()[i as int],
            ),
            None => transition_with_id(ts.deep_view(), tid@) is None,
        },
{
    let ghost all = ts.deep_view();
    let mut i: usize = 0;
    assert(all.skip(0) =~= all);
    while i < ts.len()
        invariant
            i <= ts@.len(),
            all == ts.deep_view(),
            transition_with_id(all, tid@) == transition_with_id(all.skip(i as int), tid@),
        decreases ts.len() - i,
    {
        assert(all.skip(i as int)[0] == ts@[i as int].deep_view());
        assert(all.skip(i as int).skip(1) =~= all.skip(i + 1));
        if str_eq(ts[i].id.as_str(), tid) {
            return Some(i);
        }
        i = i + 1;
    }
    None
}

/// The required entries of `fs`, cloned.
fn required_entries_of(fs: &Vec<(String, TransitionField)>) -> (r: Vec<(String, TransitionField)>)
    ensures
        r.deep_view() == required_entries(fs.deep_view()),
{
    let ghost all = fs.deep_view();
    let mut r: Vec<(String, TransitionField)> = Vec::new();
    let mut k: usize = 0;
    while k < fs.len()
        invariant
            k <= fs@.len(),
            all == fs.deep_view(),
            r.deep_view() == required_entries(all.take(k as int)),
        decreases fs.len() - k,
    {
        assert(all.take(k + 1).drop_last() =~= all.take(k as int));
        assert(all[k as int] == fs@[k as int].deep_view());
        if fs[k].1.required {
            let e = (owned(fs[k].0.as_str()), fs[k].1.clone());
            let ghost before = r.deep_view();
            r.push(e);
            assert(r.deep_view() =~= before.push(e.deep_view()));
        }
        k = k + 1;
    }
    assert(all.take(fs@.len() as int) =~= all);
    r
}

/// Decides what choosing transition `tid` on issue `key` does, given the
/// transitions the issue offers.
pub fn transition_step(ts: &Vec<Transition>, key: &str, tid: &str) -> (r: TransitionStep)
    ensures
        required_fields(ts.deep_view(), tid@).len() == 0 ==> (r matches TransitionStep::Execute {
            key: k,
            tid: t,
        } && k@ == key@ && t@ == tid@),
        required_fields(ts.deep_view(), tid@).len() > 0 ==> (r matches TransitionStep::Ask(d)
            && d.deep_view() == transition_dialog(key@, tid@, required_fields(ts.deep_view(), tid@))),
{
    let req = match transition_index(ts, tid) {
        Some(i) => required_entries_of(&ts[i].fields),
        None => Vec::new(),
    };
    if req.len() == 0 {
        TransitionStep::Execute { key: owned(key), tid: owned(tid) }
    } else {
        TransitionStep::Ask(transition_dialog_of(key, tid, req))
    }
}

/// The fields the edit dialog offers: summary, assignee, priority, due date,
/// labels and every custom field.
pub open spec fn shown_in_edit(k: Seq<char>) -> bool {
    k == "summary"@ || k == "assignee"@ || k == "priority"@ || k == "duedate"@ || k == "labels"@
        || has_prefix(k, "customfield_"@)
}

/// A user as an assignee choice: id is the account id (Cloud), or the user
/// name when there is none (Server/DC).
pub open spec fn assignee_choice(u: UserView) -> AllowedValueView {
    AllowedValueView {
        id: if u.account_id.len() == 0 {
            u.name
        } else {
            u.account_id
        },
        name: u.display_name,
        value: seq![],
    }
}

/// The field as the edit dialog uses it: the assignee field gets the
/// assignable users as its choices.
pub open spec fn edit_field(k: Seq<char>, f: TransitionFieldView, users: Seq<UserView>) -> TransitionFieldView {
    if k == "assignee"@ {
        TransitionFieldView {
            required: f.required,
            name: f.name,
            schema: f.schema,
            allowed_values: users.map_values(|u: UserView| assignee_choice(u)),
        }
    } else {
        f
    }
}

/// The entries the edit dialog shows, in order.
pub open spec fn edit_entries(ms: Seq<(Seq<char>, TransitionFieldView)>, users: Seq<UserView>) -> Seq<
    (Seq<char>, TransitionFieldView),
>
    decreases ms.len(),
{
    if ms.len() == 0 {
        seq![]
    } else {
        let init = edit_entries(ms.drop_last(), users);
        if shown_in_edit(ms.last().0) {
            init.push((ms.last().0, edit_field(ms.last().0, ms.last().1, users)))
        } else {
            init
        }
    }
}

/// The id a raw current value names: the value (or an array's first member)
/// read for `id`, else `accountId`, else `name`, when that is a string.
pub open spec fn current_id(v: Json) -> Option<Seq<char>> {
    let w = match v {
        Json::Array(a) => if a@.len() > 0 {
            a@[0]
        } else {
            Json::Null
        },
        _ => v,
    };
    let x = if w.get_of("id"@) is Some {
        w.get_of("id"@)
    } else if w.get_of("accountId"@) is Some {
        w.get_of("accountId"@)
    } else {
        w.get_of("name"@)
    };
    match x {
        Some(j) => j.str_of(),
        None => None,
    }
}

/// The first allowed value with id `id`.
pub open spec fn allowed_with_id(avs: Seq<AllowedValueView>, id: Seq<char>) -> Option<AllowedValueView>
    decreases avs.len(),
{
    if avs.len() == 0 {
        None
    } else if avs[0].id == id {
        Some(avs[0])
    } else {
        allowed_with_id(avs.skip(1), id)
    }
}

/// The (submit value, label) an edit field starts with, from the issue's raw
/// current values: for a pick-list the option the current value names, else
/// the first option; for labels the label strings joined by `, `; for text the
/// current string; empty when there is none.
pub open spec fn prefill(k: Seq<char>, f: TransitionFieldView, raw: Seq<(String, Json)>) -> (Seq<char>, Seq<char>) {
    let val = entry_of(raw, k);
    if f.allowed_values.len() > 0 {
        let hit = match val {
            Some(v) => match current_id(v) {
                Some(id) => allowed_with_id(f.allowed_values, id),
                None => None,
            },
            None => None,
        };
        match hit {
            Some(av) => (av.id, label_of(av)),
            None => first_choice(f),
        }
    } else if k == "labels"@ {
        let t = match val {
            Some(Json::Array(a)) => joined(string_members(a@), ", "@),
            _ => seq![],
        };
        (t, t)
    } else {
        let t = match val {
            Some(v) => match v.str_of() {
                Some(x) => x,
                None => seq![],
            },
            None => seq![],
        };
        (t, t)
    }
}

/// The edit dialog for issue `key`, or none when no field can be edited.
pub open spec fn edit_dialog(
    key: Seq<char>,
    ms: Seq<(Seq<char>, TransitionFieldView)>,
    users: Seq<UserView>,
    raw: Seq<(String, Json)>,
) -> Option<DialogView> {
    let es = edit_entries(ms, users);
    if es.len() == 0 {
        None
    } else {
        Some(
            DialogView {
                title: "Edit "@ + key,
                rows: es.map_values(
                    |e: (Seq<char>, TransitionFieldView)| field_row(e.1.name, e.1, prefill(e.0, e.1, raw).1),
                ),
                pending: PendingView {
                    kind: PendingKindView::Edit,
                    key,
                    fields: es.map_values(
                        |e: (Seq<char>, TransitionFieldView)|
                            PFieldView { key: e.0, field: e.1, value: prefill(e.0, e.1, raw).0, touched: false },
                    ),
                },
            },
        )
    }
}

/// The id named by a raw current value (see [`current_id`]).
fn current_id_of(v: &Json) -> (r: Option<&str>)
    ensures
        match r {
            Some(s) => current_id(*v) == Some(s@),
            None => current_id(*v) is None,
        },
{
    let w: &Json = match v {
        Json::Array(a) => if a.len() > 0 {
            &a[0]
        } else {
            return None;
        },
        _ => v,
    };
    let x = match w.get("id") {
        Some(j) => Some(j),
        None => match w.get("accountId") {
            Some(j) => Some(j),
            None => w.get("name"),
        },
    };
    match x {
        Some(j) => j.as_str(),
        None => None,
    }
}

/// Index of the first allowed value with id `id`.
fn allowed_index(avs: &Vec<AllowedValue>, id: &str) -> (r: Option<usize>)
    ensures
        match r {
            Some(i) => i < avs@.len() && allowed_with_id(avs.deep_view(), id@) == Some(
                avs.deep_view()[i as int],
            ),
            None => allowed_with_id(avs.deep_view(), id@) is None,
        },
{
    let ghost all = avs.deep_view();
    let mut i: usize = 0;
    assert(all.skip(0) =~= all);
    while i < avs.len()
        invariant
            i <= avs@.len(),
            all == avs.deep_view(),
            allowed_with_id(all, id@) == allowed_with_id(all.skip(i as int), id@),
        decreases avs.len() - i,
    {
        assert(all.skip(i as int)[0] == avs@[i as int].deep_view());
        assert(all.skip(i as int).skip(1) =~= all.skip(i + 1));
        if str_eq(avs[i].id.as_str(), id) {
            return Some(i);
        }
        i = i + 1;
    }
    None
}

/// The starting (submit value, label) of an edit field (see [`prefill`]).
pub fn prefill_of(k: &str, f: &TransitionField, raw: &Vec<(String, Json)>) -> (r: (String, String))
    ensures
        r.0@ == prefill(k@, f.deep_view(), raw@).0,
        r.1@ == prefill(k@, f.deep_view(), raw@).1,
{
    let val: Option<&Json> = match find_entry(raw, k) {
        Some(i) => Some(&raw[i].1),
        None => None,
    };
    if f.has_options() {
        let hit = match val {
            Some(v) => match current_id_of(v) {
                Some(id) => allowed_index(&f.allowed_values, id),
                None => None,
            },
            None => None,
        };
        match hit {
            Some(i) => {
                assert(f.deep_view().allowed_values[i as int] == f.allowed_values@[i as int].deep_view());
                (owned(f.allowed_values[i].id.as_str()), owned(f.allowed_values[i].label()))
            },
            None => first_choice_of(f),
        }
    } else if str_eq(k, "labels") {
        let t = match val {
            Some(Json::Array(a)) => {
                let parts = strings_in(a);
                join(&parts, ", ")
            },
            _ => String::new(),
        };
        (owned(t.as_str()), t)
    } else {
        let t = match val {
            Some(v) => match v.as_str() {
                Some(x) => owned(x),
                None => String::new(),
            },
            None => String::new(),
        };
        (owned(t.as_str()), t)
    }
}

/// The field `f` under key `k` as the edit dialog uses it.
fn edit_field_of(k: &str, f: &TransitionField, users: &Vec<User>) -> (r: TransitionField)
    ensures
        r.deep_view() == edit_field(k@, f.deep_view(), users.deep_view()),
{
    if str_eq(k, "assignee") {
        let mut avs: Vec<AllowedValue> = Vec::new();
        let mut j: usize = 0;
        while j < users.len()
            invariant
                j <= users@.len(),
                avs.deep_view() =~= users.deep_view().take(j as int).map_values(
                    |u: UserView| assignee_choice(u),
                ),
            decreases users.len() - j,
        {
            let u = &users[j];
            let id = if u.account_id.as_str().is_empty() {
                owned(u.name.as_str())
            } else {
                owned(u.account_id.as_str())
            };
            let av = AllowedValue { id, name: owned(u.display_name.as_str()), value: String::new() };
            let ghost before = avs.deep_view();
            avs.push(av);
            assert(users.deep_view()[j as int] == users@[j as int].deep_view());
            assert(avs.deep_view() =~= before.push(av.deep_view()));
            assert(users.deep_view().take(j + 1).map_values(|u: UserView| assignee_choice(u))
                =~= users.deep_view().take(j as int).map_values(|u: UserView| assignee_choice(u)).push(
                assignee_choice(users.deep_view()[j as int]),
            ));
            j = j + 1;
        }
        assert(users.deep_view().take(users@.len() as int) =~= users.deep_view());
        TransitionField {
            required: f.required,
            name: owned(f.name.as_str()),
            schema: f.schema.clone(),
            allowed_values: avs,
        }
    } else {
        f.clone()
    }
}

/// Builds the edit dialog for issue `key` from its edit metadata, the users
/// it can be assigned to and its raw current field values.
pub fn edit_dialog_of(
    key: &str,
    metas: &Vec<(String, TransitionField)>,
    users: &Vec<User>,
    raw: &Vec<(String, Json)>,
) -> (r: Result<Dialog, String>)
    ensures
        match edit_dialog(key@, metas.deep_view(), users.deep_view(), raw@) {
            Some(d) => r matches Ok(x) && x.deep_view() == d,
            None => r matches Err(e) && e@ == "No editable fields for this issue."@,
        },
{
    let ghost ms = metas.deep_view();
    let ghost us = users.deep_view();
    let ghost rw = raw@;
    let mut rows: Vec<FieldRow> = Vec::new();
    let mut fields: Vec<PField> = Vec::new();
    let mut k: usize = 0;
    while k < metas.len()
        invariant
            k <= metas@.len(),
            ms == metas.deep_view(),
            us == users.deep_view(),
            rw == raw@,
            rows.deep_view() =~= edit_entries(ms.take(k as int), us).map_values(
                |e: (Seq<char>, TransitionFieldView)| field_row(e.1.name, e.1, prefill(e.0, e.1, rw).1),
            ),
            fields.deep_view() =~= edit_entries(ms.take(k as int), us).map_values(
                |e: (Seq<char>, TransitionFieldView)|
                    PFieldView { key: e.0, field: e.1, value: prefill(e.0, e.1, rw).0, touched: false },
            ),
        decreases metas.len() - k,
    {
        assert(ms.take(k + 1).drop_last() =~= ms.take(k as int));
        assert(ms[k as int] == metas@[k as int].deep_view());
        let fkey = metas[k].0.as_str();
        let show = str_eq(fkey, "summary") || str_eq(fkey, "assignee") || str_eq(fkey, "priority")
            || str_eq(fkey, "duedate") || str_eq(fkey, "labels") || starts_with(fkey, "customfield_");
        if show {
            let f = edit_field_of(fkey, &metas[k].1, users);
            let (init_id, init_label) = prefill_of(fkey, &f, raw);
            let row = field_row_of(owned(f.name.as_str()), &f, init_label);
            let pf = PField { key: owned(fkey), field: f, value: init_id, touched: false };
            let ghost rb = rows.deep_view();
            let ghost fb = fields.deep_view();
            rows.push(row);
            fields.push(pf);
            assert(rows.deep_view() =~= rb.push(row.deep_view()));
            assert(fields.deep_view() =~= fb.push(pf.deep_view()));
        }
        k = k + 1;
    }
    assert(ms.take(metas@.len() as int) =~= ms);
    if fields.len() == 0 {
        return Err(owned("No editable fields for this issue."));
    }
    let mut title = owned("Edit ");
    push_str(&mut title, key);
    Ok(Dialog { title, rows, pending: Pending { kind: PendingKind::Edit, key: owned(key), fields } })
}

/// The id of a project/type choice: `<project key>|<type name>`.
pub open spec fn combo_id(o: CreateOptionView) -> Seq<char> {
    o.project_key + "|"@ + o.issuetype_name
}

/// A project/type choice as a pick-list option.
pub open spec fn combo_choice(o: CreateOptionView) -> AllowedValueView {
    AllowedValueView {
        id: combo_id(o),
        name: o.project_name + " ("@ + o.project_key + ") — "@ + o.issuetype_name,
        value: seq![],
    }
}

/// The first create option whose combo id is `id`.
pub open spec fn option_with_combo(opts: Seq<CreateOptionView>, id: Seq<char>) -> Option<CreateOptionView>
    decreases opts.len(),
{
    if opts.len() == 0 {
        None
    } else if combo_id(opts[0]) == id {
        Some(opts[0])
    } else {
        option_with_combo(opts.skip(1), id)
    }
}

/// A field with nothing but a name and pick-list options.
pub open spec fn plain_field(name: Seq<char>, avs: Seq<AllowedValueView>) -> TransitionFieldView {
    TransitionFieldView {
        required: false,
        name,
        schema: FieldSchemaView { type_: seq![], items: seq![] },
        allowed_values: avs,
    }
}

/// The "New issue" dialog: the project/type pick-list (on `selected`, or the
/// first choice when none is given), summary and description as typed, and
/// the chosen combination's required fields; none when there is no project.
pub open spec fn create_dialog(
    opts: Seq<CreateOptionView>,
    selected: Seq<char>,
    summary: Seq<char>,
    description: Seq<char>,
) -> Option<DialogView> {
    if opts.len() == 0 {
        None
    } else {
        let combos = opts.map_values(|o: CreateOptionView| combo_choice(o));
        let sid = if selected.len() == 0 {
            combo_id(opts[0])
        } else {
            selected
        };
        let slabel = match allowed_with_id(combos, sid) {
            Some(a) => label_of(a),
            None => seq![],
        };
        let req = match option_with_combo(opts, sid) {
            Some(o) => o.required,
            None => seq![],
        };
        let no_field = plain_field(seq![], seq![]);
        Some(
            DialogView {
                title: "New issue"@,
                rows: seq![
                    FieldRowView {
                        name: "Project / Type"@,
                        options: combos.map_values(|a: AllowedValueView| label_of(a)),
                        is_select: true,
                        value: slabel,
                    },
                    FieldRowView { name: "Summary"@, options: seq![], is_select: false, value: summary },
                    FieldRowView {
                        name: "Description"@,
                        options: seq![],
                        is_select: false,
                        value: description,
                    },
                ] + req.map_values(
                    |e: (Seq<char>, TransitionFieldView)|
                        field_row(e.1.name + " *"@, e.1, first_choice(e.1).1),
                ),
                pending: PendingView {
                    kind: PendingKindView::Create,
                    key: seq![],
                    fields: seq![
                        PFieldView {
                            key: "__projtype"@,
                            field: plain_field("Project / Type"@, combos),
                            value: sid,
                            touched: true,
                        },
                        PFieldView { key: "summary"@, field: no_field, value: summary, touched: false },
                        PFieldView {
                            key: "description"@,
                            field: no_field,
                            value: description,
                            touched: false,
                        },
                    ] + req.map_values(
                        |e: (Seq<char>, TransitionFieldView)|
                            PFieldView { key: e.0, field: e.1, value: first_choice(e.1).0, touched: false },
                    ),
                },
            },
        )
    }
}

/// The combo id of a create option.
fn combo_id_of(o: &CreateOption) -> (r: String)
    ensures
        r@ == combo_id(o.deep_view()),
{
    let mut r = owned(o.project_key.as_str());
    push_str(&mut r, "|");
    push_str(&mut r, o.issuetype_name.as_str());
    r
}

/// Index of the first create option whose combo id is `id`.
fn combo_index(opts: &Vec<CreateOption>, id: &str) -> (r: Option<usize>)
    ensures
        match r {
            Some(i) => i < opts@.len() && option_with_combo(opts.deep_view(), id@) == Some(
                opts.deep_view()[i as int],
            ),
            None => option_with_combo(opts.deep_view(), id@) is None,
        },
{
    let ghost all = opts.deep_view();
    let mut i: usize = 0;
    assert(all.skip(0) =~= all);
    while i < opts.len()
        invariant
            i <= opts@.len(),
            all == opts.deep_view(),
            option_with_combo(all, id@) == option_with_combo(all.skip(i as int), id@),
        decreases opts.len() - i,
    {
        assert(all.skip(i as int)[0] == opts@[i as int].deep_view());
        assert(all.skip(i as int).skip(1) =~= all.skip(i + 1));
        let c = combo_id_of(&opts[i]);
        if str_eq(c.as_str(), id) {
            return Some(i);
        }
        i = i + 1;
    }
    None
}

/// A field with only a name and options.
fn plain_field_of(name: &str, avs: Vec<AllowedValue>) -> (r: TransitionField)
    ensures
        r.deep_view() == plain_field(name@, avs.deep_view()),
{
    TransitionField {
        required: false,
        name: owned(name),
        schema: FieldSchema { type_: String::new(), items: String::new() },
        allowed_values: avs,
    }
}

/// Builds (or rebuilds) the "New issue" dialog from the create options, on the
/// chosen project/type, keeping the summary and description typed so far.
pub fn create_dialog_of(
    opts: &Vec<CreateOption>,
    selected: &str,
    summary: &str,
    description: &str,
) -> (r: Result<Dialog, String>)
    ensures
        match create_dialog(opts.deep_view(), selected@, summary@, description@) {
            Some(d) => r matches Ok(x) && x.deep_view() == d,
            None => r matches Err(e) && e@ == "No projects available to create issues in."@,
        },
{
    if opts.len() == 0 {
        return Err(owned("No projects available to create issues in."));
    }
    let ghost ov = opts.deep_view();
    let mut combos: Vec<AllowedValue> = Vec::new();
    let mut k: usize = 0;
    while k < opts.len()
        invariant
            k <= opts@.len(),
            ov == opts.deep_view(),
            combos.deep_view() =~= ov.take(k as int).map_values(|o: CreateOptionView| combo_choice(o)),
        decreases opts.len() - k,
    {
        let o = &opts[k];
        let mut name = owned(o.project_name.as_str());
        push_str(&mut name, " (");
        push_str(&mut name, o.project_key.as_str());
        push_str(&mut name, ") — ");
        push_str(&mut name, o.issuetype_name.as_str());
        let av = AllowedValue { id: combo_id_of(o), name, value: String::new() };
        let ghost before = combos.deep_view();
        combos.push(av);
        assert(ov[k as int] == opts@[k as int].deep_view());
        assert(combos.deep_view() =~= before.push(av.deep_view()));
        assert(ov.take(k + 1) =~= ov.take(k as int).push(ov[k as int]));
        k = k + 1;
    }
    assert(ov.take(opts@.len() as int) =~= ov);
    let ghost cv = combos.deep_view();
    let sid = if selected.is_empty() {
        assert(cv[0] == combos@[0].deep_view());
        owned(combos[0].id.as_str())
    } else {
        owned(selected)
    };
    let slabel = match allowed_index(&combos, sid.as_str()) {
        Some(i) => {
            assert(cv[i as int] == combos@[i as int].deep_view());
            owned(combos[i].label())
        },
        None => String::new(),
    };
    let row0 = FieldRow { name: owned("Project / Type"), options: labels_of(&combos), is_select: true, value: slabel };
    let row1 = FieldRow { name: owned("Summary"), options: Vec::new(), is_select: false, value: owned(summary) };
    let row2 = FieldRow { name: owned("Description"), options: Vec::new(), is_select: false, value: owned(description) };
    let ghost rd = seq![row0.deep_view(), row1.deep_view(), row2.deep_view()];
    let mut rows: Vec<FieldRow> = Vec::new();
    rows.push(row0);
    rows.push(row1);
    rows.push(row2);
    assert(rows.deep_view() =~= rd);
    let pick = plain_field_of("Project / Type", combos);
    let pf0 = PField { key: owned("__projtype"), field: pick, value: owned(sid.as_str()), touched: true };
    let pf1 = PField { key: owned("summary"), field: plain_field_of("", Vec::new()), value: owned(summary), touched: false };
    let pf2 = PField { key: owned("description"), field: plain_field_of("", Vec::new()), value: owned(description), touched: false };
    proof {
        reveal_strlit("");
    }
    let ghost fd = seq![pf0.deep_view(), pf1.deep_view(), pf2.deep_view()];
    let mut fields: Vec<PField> = Vec::new();
    fields.push(pf0);
    fields.push(pf1);
    fields.push(pf2);
    assert(fields.deep_view() =~= fd);
    proof {
        reveal_strlit("");
    }
    let ghost rows0 = rows.deep_view();
    let ghost fields0 = fields.deep_view();
    let empty_req: Vec<(String, TransitionField)> = Vec::new();
    let ci = combo_index(opts, sid.as_str());
    let req: &Vec<(String, TransitionField)> = match ci {
        Some(i) => &opts[i].required,
        None => &empty_req,
    };
    let ghost rv = req.deep_view();
    let mut j: usize = 0;
    while j < req.len()
        invariant
            j <= req@.len(),
            rv == req.deep_view(),
            rows.deep_view() =~= rows0 + rv.take(j as int).map_values(
                |e: (Seq<char>, TransitionFieldView)| field_row(e.1.name + " *"@, e.1, first_choice(e.1).1),
            ),
            fields.deep_view() =~= fields0 + rv.take(j as int).map_values(
                |e: (Seq<char>, TransitionFieldView)|
                    PFieldView { key: e.0, field: e.1, value: first_choice(e.1).0, touched: false },
            ),
        decreases req.len() - j,
    {
        let ghost e = rv[j as int];
        assert(e == req@[j as int].deep_view());
        let (id, label) = first_choice_of(&req[j].1);
        let mut name = owned(req[j].1.name.as_str());
        push_str(&mut name, " *");
        let row = field_row_of(name, &req[j].1, label);
        let pf = PField { key: owned(req[j].0.as_str()), field: req[j].1.clone(), value: id, touched: false };
        let ghost rb = rows.deep_view();
        let ghost fb = fields.deep_view();
        rows.push(row);
        fields.push(pf);
        assert(rows.deep_view() =~= rb.push(row.deep_view()));
        assert(fields.deep_view() =~= fb.push(pf.deep_view()));
        assert(rv.take(j + 1) =~= rv.take(j as int).push(e));
        j = j + 1;
    }
    assert(rv.take(req@.len() as int) =~= rv);
    proof {
        match ci {
            Some(i) => assert(rv == ov[i as int].required),
            None => assert(rv =~= Seq::<(Seq<char>, TransitionFieldView)>::empty()),
        }
    }
    let ghost combos_v = ov.map_values(|o: CreateOptionView| combo_choice(o));
    assert(cv == combos_v);
    let ghost sid_v = if selected@.len() == 0 { combo_id(ov[0]) } else { selected@ };
    assert(sid@ == sid_v);
    assert(slabel@ == match allowed_with_id(combos_v, sid_v) {
        Some(a) => label_of(a),
        None => seq![],
    });
    assert(rows0.len() == 3);
    assert(rows0[0].name == "Project / Type"@);
    assert(rows0[0].options == combos_v.map_values(|a: AllowedValueView| label_of(a)));
    assert(rows0[0].value == slabel@);
    assert(rows0[1].options =~= seq![]);
    assert(rows0[1].name == "Summary"@);
    assert(rows0[1].value == summary@);
    assert(rows0 =~~= seq![
        FieldRowView {
            name: "Project / Type"@,
            options: combos_v.map_values(|a: AllowedValueView| label_of(a)),
            is_select: true,
            value: slabel@,
        },
        FieldRowView { name: "Summary"@, options: seq![], is_select: false, value: summary@ },
        FieldRowView { name: "Description"@, options: seq![], is_select: false, value: description@ },
    ]);
    let ghost no_field = plain_field(seq![], seq![]);
    assert(fields0.len() == 3);
    assert(fields0[0].key == "__projtype"@);
    assert(fields0[0].field == plain_field("Project / Type"@, combos_v));
    assert(fields0[0].value == sid_v);
    assert(fields0[1].field.allowed_values =~= seq![]);
    assert(fields0[1].field.name =~= seq![]);
    assert(fields0[1].field == no_field);
    assert(fields0[2].field == no_field);
    assert(fields0 =~~= seq![
        PFieldView { key: "__projtype"@, field: plain_field("Project / Type"@, combos_v), value: sid_v, touched: true },
        PFieldView { key: "summary"@, field: no_field, value: summary@, touched: false },
        PFieldView { key: "description"@, field: no_field, value: description@, touched: false },
    ]);
    let key = String::new();
    assert(key@ == Seq::<char>::empty());
    Ok(Dialog { title: owned("New issue"), rows, pending: Pending { kind: PendingKind::Create, key, fields } })
}

/// The first allowed value whose label is `l`.
pub open spec fn allowed_with_label(avs: Seq<AllowedValueView>, l: Seq<char>) -> Option<AllowedValueView>
    decreases avs.len(),
{
    if avs.len() == 0 {
        None
    } else if label_of(avs[0]) == l {
        Some(avs[0])
    } else {
        allowed_with_label(avs.skip(1), l)
    }
}

/// What a field stores when the user picks or types `value`: for a pick-list
/// the id of the option labelled `value` (the text itself when none is), for
/// free text the text.
pub open spec fn chosen_value(f: TransitionFieldView, value: Seq<char>) -> Seq<char> {
    if f.allowed_values.len() > 0 {
        match allowed_with_label(f.allowed_values, value) {
            Some(a) => a.id,
            None => value,
        }
    } else {
        value
    }
}

/// The dialog fields after the user set field `i` to `value`: it takes the
/// chosen value and counts as touched; an index past the end changes nothing.
pub open spec fn changed_fields(fs: Seq<PFieldView>, i: int, value: Seq<char>) -> Seq<PFieldView> {
    if 0 <= i < fs.len() {
        fs.update(
            i,
            PFieldView {
                key: fs[i].key,
                field: fs[i].field,
                value: chosen_value(fs[i].field, value),
                touched: true,
            },
        )
    } else {
        fs
    }
}

/// The value of the first field keyed `k`, empty when there is none.
pub open spec fn field_value(fs: Seq<PFieldView>, k: Seq<char>) -> Seq<char>
    decreases fs.len(),
{
    if fs.len() == 0 {
        seq![]
    } else if fs[0].key == k {
        fs[0].value
    } else {
        field_value(fs.skip(1), k)
    }
}

/// When a "New issue" dialog's project/type changed, what to rebuild it
/// with: the new combo, and the summary and description typed so far.
pub open spec fn rebuild_request(kind: PendingKindView, fs: Seq<PFieldView>, i: int) -> Option<
    (Seq<char>, Seq<char>, Seq<char>),
> {
    if kind is Create && 0 <= i < fs.len() && fs[i].key == "__projtype"@ {
        Some((fs[i].value, field_value(fs, "summary"@), field_value(fs, "description"@)))
    } else {
        None
    }
}

fn allowed_label_index(avs: &Vec<AllowedValue>, l: &str) -> (r: Option<usize>)
    ensures
        match r {
            Some(i) => i < avs@.len() && allowed_with_label(avs.deep_view(), l@) == Some(
                avs.deep_view()[i as int],
            ),
            None => allowed_with_label(avs.deep_view(), l@) is None,
        },
{
    let ghost all = avs.deep_view();
    let mut i: usize = 0;
    assert(all.skip(0) =~= all);
    while i < avs.len()
        invariant
            i <= avs@.len(),
            all == avs.deep_view(),
            allowed_with_label(all, l@) == allowed_with_label(all.skip(i as int), l@),
        decreases avs.len() - i,
    {
        assert(all.skip(i as int)[0] == avs@[i as int].deep_view());
        assert(all.skip(i as int).skip(1) =~= all.skip(i + 1));
        if str_eq(avs[i].label(), l) {
            return Some(i);
        }
        i = i + 1;
    }
    None
}

fn field_value_of(fs: &Vec<PField>, k: &str) -> (r: String)
    ensures
        r@ == field_value(fs.deep_view(), k@),
{
    let ghost all = fs.deep_view();
    let mut i: usize = 0;
    assert(all.skip(0) =~= all);
    while i < fs.len()
        invariant
            i <= fs@.len(),
            all == fs.deep_view(),
            field_value(all, k@) == field_value(all.skip(i as int), k@),
        decreases fs.len() - i,
    {
        assert(all.skip(i as int)[0] == fs@[i as int].deep_view());
        assert(all.skip(i as int).skip(1) =~= all.skip(i + 1));
        if str_eq(fs[i].key.as_str(), k) {
            return owned(fs[i].value.as_str());
        }
        i = i + 1;
    }
    assert(all.skip(fs@.len() as int) =~= Seq::<PFieldView>::empty());
    String::new()
}

impl Pending {
    /// The user set field `i` to `value` (an option's label, or text). For a
    /// "New issue" dialog whose project/type changed, says what to rebuild it
    /// with.
    pub fn field_changed(&mut self, i: usize, value: &str) -> (r: Option<(String, String, String)>)
        ensures
            final(self).deep_view().kind == old(self).deep_view().kind,
            final(self).deep_view().key == old(self).deep_view().key,
            final(self).deep_view().fields == changed_fields(old(self).deep_view().fields, i as int, value@),
            match rebuild_request(old(self).deep_view().kind, final(self).deep_view().fields, i as int) {
                Some(t) => r matches Some(x) && x.0@ == t.0 && x.1@ == t.1 && x.2@ == t.2,
                None => r is None,
            },
    {
        let ghost fs0 = self.fields.deep_view();
        if i < self.fields.len() {
            let pf = &self.fields[i];
            let ghost fv = fs0[i as int];
            assert(fv == pf.deep_view());
            let v = if pf.field.has_options() {
                match allowed_label_index(&pf.field.allowed_values, value) {
                    Some(j) => {
                        assert(fv.field.allowed_values[j as int] == pf.field.allowed_values@[j as int].deep_view());
                        owned(pf.field.allowed_values[j].id.as_str())
                    },
                    None => owned(value),
                }
            } else {
                owned(value)
            };
            let npf = PField { key: owned(pf.key.as_str()), field: pf.field.clone(), value: v, touched: true };
            let ghost nv = npf.deep_view();
            self.fields.set(i, npf);
            assert(self.fields.deep_view() =~= fs0.update(i as int, nv));
        }
        let is_create = match self.kind {
            PendingKind::Create => true,
            _ => false,
        };
        if is_create && i < self.fields.len() && str_eq(self.fields[i].key.as_str(), "__projtype") {
            assert(self.fields.deep_view()[i as int] == self.fields@[i as int].deep_view());
            let combo = owned(self.fields[i].value.as_str());
            let summary = field_value_of(&self.fields, "summary");
            let desc = field_value_of(&self.fields, "description");
            Some((combo, summary, desc))
        } else {
            proof {
                if i < self.fields@.len() {
                    assert(self.fields.deep_view()[i as int] == self.fields@[i as int].deep_view());
                }
            }
            None
        }
    }
}

/// What submitting a dialog asks for.
pub enum Submission {
    /// Move `key` through transition `tid` with these fields.
    Transition { key: String, tid: String, fields: Json },
    /// Edit `key`: reassign it when `assignee` is given, update these fields
    /// when there are any.
    Edit { key: String, assignee: Option<String>, fields: Json },
    /// Create an issue.
    Create {
        project: String,
        issue_type: String,
        summary: String,
        description: Option<String>,
        extra: Json,
    },
    /// Nothing to send (an edit that changed nothing).
    Nothing,
    /// The dialog cannot be submitted; the message says why.
    Invalid(String),
}

pub enum SubmissionView {
    Transition { key: Seq<char>, tid: Seq<char>, fields: JsonView },
    Edit { key: Seq<char>, assignee: Option<Seq<char>>, fields: JsonView },
    Create {
        project: Seq<char>,
        issue_type: Seq<char>,
        summary: Seq<char>,
        description: Option<Seq<char>>,
        extra: JsonView,
    },
    Nothing,
    Invalid(Seq<char>),
}

impl DeepView for Submission {
    type V = SubmissionView;

    open spec fn deep_view(&self) -> SubmissionView {
        match self {
            Submission::Transition { key, tid, fields } => SubmissionView::Transition {
                key: key@,
                tid: tid@,
                fields: fields.view_of(),
            },
            Submission::Edit { key, assignee, fields } => SubmissionView::Edit {
                key: key@,
                assignee: match assignee {
                    Some(a) => Some(a@),
                    None => None,
                },
                fields: fields.view_of(),
            },
            Submission::Create { project, issue_type, summary, description, extra } => SubmissionView::Create {
                project: project@,
                issue_type: issue_type@,
                summary: summary@,
                description: match description {
                    Some(d) => Some(d@),
                    None => None,
                },
                extra: extra.view_of(),
            },
            Submission::Nothing => SubmissionView::Nothing,
            Submission::Invalid(m) => SubmissionView::Invalid(m@),
        }
    }
}

/// Every field's JSON, by key, in order (a later field of the same key wins).
pub open spec fn all_fields_map(fs: Seq<PFieldView>) -> Seq<(Seq<char>, JsonView)>
    decreases fs.len(),
{
    if fs.len() == 0 {
        seq![]
    } else {
        set_view(
            all_fields_map(fs.drop_last()),
            fs.last().key,
            transition_field_view(fs.last().field, fs.last().value),
        )
    }
}

/// The trimmed, non-empty pieces, in order.
pub open spec fn label_parts(ps: Seq<Seq<char>>) -> Seq<Seq<char>>
    decreases ps.len(),
{
    if ps.len() == 0 {
        seq![]
    } else if trim_ws(ps.last()).len() == 0 {
        label_parts(ps.drop_last())
    } else {
        label_parts(ps.drop_last()).push(trim_ws(ps.last()))
    }
}

/// Comma-separated label text as a JSON array of label strings.
pub open spec fn label_items(v: Seq<char>) -> Seq<JsonView> {
    label_parts(split_on(v, ',')).map_values(|t: Seq<char>| JsonView::Str(t))
}

/// The last touched assignee choice.
pub open spec fn edit_assignee(fs: Seq<PFieldView>) -> Option<Seq<char>>
    decreases fs.len(),
{
    if fs.len() == 0 {
        None
    } else if fs.last().touched && fs.last().key == "assignee"@ {
        Some(fs.last().value)
    } else {
        edit_assignee(fs.drop_last())
    }
}

/// The touched fields an edit updates: labels as an array of strings, the
/// others as their field JSON; the assignee goes its own way.
pub open spec fn edit_map(fs: Seq<PFieldView>) -> Seq<(Seq<char>, JsonView)>
    decreases fs.len(),
{
    if fs.len() == 0 {
        seq![]
    } else {
        let m = edit_map(fs.drop_last());
        let f = fs.last();
        if !f.touched || f.key == "assignee"@ {
            m
        } else if f.key == "labels"@ {
            set_view(m, "labels"@, JsonView::Array(label_items(f.value)))
        } else {
            set_view(m, f.key, transition_field_view(f.field, f.value))
        }
    }
}

/// Index of the first `|` in `s`.
pub open spec fn first_bar(s: Seq<char>) -> Option<int>
    decreases s.len(),
{
    if s.len() == 0 {
        None
    } else if s[0] == '|' {
        Some(0)
    } else {
        match first_bar(s.skip(1)) {
            Some(i) => Some(i + 1),
            None => None,
        }
    }
}

/// A combo id split at its first `|` into project key and type name.
pub open spec fn split_combo(s: Seq<char>) -> (Seq<char>, Seq<char>) {
    match first_bar(s) {
        Some(i) => (s.take(i), s.skip(i + 1)),
        None => (s, seq![]),
    }
}

/// What a "New issue" dialog holds: project, type, summary, description and
/// the extra fields filled in (each taken from the last field that sets it).
pub open spec fn create_parts(fs: Seq<PFieldView>) -> (
    Seq<char>,
    Seq<char>,
    Seq<char>,
    Seq<char>,
    Seq<(Seq<char>, JsonView)>,
)
    decreases fs.len(),
{
    if fs.len() == 0 {
        (seq![], seq![], seq![], seq![], seq![])
    } else {
        let (p, t, s, d, x) = create_parts(fs.drop_last());
        let f = fs.last();
        if f.key == "__projtype"@ {
            (split_combo(f.value).0, split_combo(f.value).1, s, d, x)
        } else if f.key == "summary"@ {
            (p, t, f.value, d, x)
        } else if f.key == "description"@ {
            (p, t, s, f.value, x)
        } else if f.value.len() > 0 {
            (p, t, s, d, set_view(x, f.key, transition_field_view(f.field, f.value)))
        } else {
            (p, t, s, d, x)
        }
    }
}

/// What submitting the dialog asks for.
pub open spec fn submission(p: PendingView) -> SubmissionView {
    match p.kind {
        PendingKindView::Transition(tid) => SubmissionView::Transition {
            key: p.key,
            tid,
            fields: JsonView::Object(all_fields_map(p.fields)),
        },
        PendingKindView::Edit => {
            let a = edit_assignee(p.fields);
            let m = edit_map(p.fields);
            if a is None && m.len() == 0 {
                SubmissionView::Nothing
            } else {
                SubmissionView::Edit { key: p.key, assignee: a, fields: JsonView::Object(m) }
            }
        },
        PendingKindView::Create => {
            let (project, issue_type, summary, desc, extra) = create_parts(p.fields);
            if trim_ws(summary).len() == 0 {
                SubmissionView::Invalid("Summary is required to create an issue."@)
            } else {
                SubmissionView::Create {
                    project,
                    issue_type,
                    summary,
                    description: if trim_ws(desc).len() == 0 {
                        None
                    } else {
                        Some(desc)
                    },
                    extra: JsonView::Object(extra),
                }
            }
        },
    }
}

/// Sets `key` to `value` in an entry list.
fn put(entries: &mut Vec<(String, Json)>, key: String, value: Json)
    ensures
        entries_view(final(entries)@) == set_view(entries_view(old(entries)@), key@, value.view_of()),
{
    proof {
        lemma_with_entry_view(old(entries)@, key, value);
    }
    set_entry(entries, key, value);
}

/// The object holding `entries`.
fn object_of(entries: Vec<(String, Json)>) -> (r: Json)
    ensures
        r.view_of() == JsonView::Object(entries_view(entries@)),
{
    let ghost ev = entries_view(entries@);
    let r = Json::Object(entries);
    assert(r.view_of()->Object_0 =~= ev);
    r
}

/// Comma-separated label text as a JSON array of label strings.
fn label_items_of(v: &str) -> (r: Json)
    ensures
        r.view_of() == JsonView::Array(label_items(v@)),
{
    let cs = chars_of(v);
    let pieces = split_chars(&cs, ',');
    let ghost ps = pieces.deep_view();
    let mut items: Vec<Json> = Vec::new();
    let mut k: usize = 0;
    while k < pieces.len()
        invariant
            k <= pieces@.len(),
            ps == pieces.deep_view(),
            items@.len() == label_parts(ps.take(k as int)).len(),
            forall|j: int|
                0 <= j < items@.len() ==> #[trigger] items@[j].view_of() == JsonView::Str(
                    label_parts(ps.take(k as int))[j],
                ),
        decreases pieces.len() - k,
    {
        assert(ps.take(k + 1).drop_last() =~= ps.take(k as int));
        assert(ps[k as int] == pieces@[k as int]@);
        let piece = string_of(&pieces[k], 0, pieces[k].len());
        assert(pieces@[k as int]@.subrange(0, pieces@[k as int]@.len() as int) =~= pieces@[k as int]@);
        let t = trim(piece.as_str());
        if !t.as_str().is_empty() {
            let j = Json::string(t.as_str());
            items.push(j);
        }
        k = k + 1;
    }
    assert(ps.take(pieces@.len() as int) =~= ps);
    let ghost parts = label_parts(ps);
    assert(items@.len() == parts.len());
    assert forall|j: int| 0 <= j < parts.len() implies #[trigger] items@[j].view_of() == JsonView::Str(
        parts[j],
    ) by {
        assert(items@[j].view_of() == JsonView::Str(label_parts(ps.take(pieces@.len() as int))[j]));
    }
    let ghost iv = items@;
    let r = Json::Array(items);
    assert(r->Array_0@ == iv);
    assert(r.view_of()->Array_0.len() == parts.len());
    assert forall|j: int| 0 <= j < parts.len() implies r.view_of()->Array_0[j] == JsonView::Str(parts[j]) by {
        assert(r.view_of()->Array_0[j] == iv[j].view_of());
        assert(iv[j].view_of() == JsonView::Str(parts[j]));
    }
    assert(r.view_of()->Array_0 =~= parts.map_values(|t: Seq<char>| JsonView::Str(t)));
    r
}

proof fn lemma_first_bar(s: Seq<char>, i: int)
    requires
        0 <= i <= s.len(),
        forall|j: int| 0 <= j < i ==> s[j] != '|',
    ensures
        i < s.len() && s[i] == '|' ==> first_bar(s) == Some(i),
        i == s.len() ==> first_bar(s) is None,
    decreases i,
{
    if i > 0 {
        assert forall|j: int| 0 <= j < i - 1 implies s.skip(1)[j] != '|' by {
            assert(s.skip(1)[j] == s[j + 1]);
        }
        lemma_first_bar(s.skip(1), i - 1);
        if i < s.len() {
            assert(s.skip(1)[i - 1] == s[i]);
        }
    }
}

/// A combo id split at its first `|` (see [`split_combo`]).
fn split_combo_of(v: &str) -> (r: (String, String))
    ensures
        r.0@ == split_combo(v@).0,
        r.1@ == split_combo(v@).1,
{
    let cs = chars_of(v);
    let mut i: usize = 0;
    while i < cs.len()
        invariant
            i <= cs@.len(),
            cs@ == v@,
            forall|j: int| 0 <= j < i ==> cs@[j] != '|',
        decreases cs.len() - i,
    {
        if cs[i] == '|' {
            proof {
                lemma_first_bar(v@, i as int);
            }
            let a = string_of(&cs, 0, i);
            let b = string_of(&cs, i + 1, cs.len());
            assert(v@.subrange(0, i as int) =~= v@.take(i as int));
            assert(v@.subrange(i + 1, v@.len() as int) =~= v@.skip(i + 1));
            return (a, b);
        }
        i = i + 1;
    }
    proof {
        lemma_first_bar(v@, i as int);
    }
    (owned(v), String::new())
}

impl Pending {
    /// What submitting this dialog asks for: a transition sends every field,
    /// an edit only the touched ones, a create its parts (a summary is needed).
    pub fn submit(self) -> (r: Submission)
        ensures
            r.deep_view() == submission(self.deep_view()),
    {
        let ghost pv = self.deep_view();
        let ghost fs = self.fields.deep_view();
        match self.kind {
            PendingKind::Transition(tid) => {
                let mut entries: Vec<(String, Json)> = Vec::new();
                let mut k: usize = 0;
                while k < self.fields.len()
                    invariant
                        k <= self.fields@.len(),
                        fs == self.fields.deep_view(),
                        entries_view(entries@) =~= all_fields_map(fs.take(k as int)),
                    decreases self.fields.len() - k,
                {
                    assert(fs.take(k + 1).drop_last() =~= fs.take(k as int));
                    assert(fs[k as int] == self.fields@[k as int].deep_view());
                    let pf = &self.fields[k];
                    let j = transition_field_json(&pf.field, pf.value.as_str());
                    put(&mut entries, owned(pf.key.as_str()), j);
                    k = k + 1;
                }
                assert(fs.take(self.fields@.len() as int) =~= fs);
                Submission::Transition { key: self.key, tid, fields: object_of(entries) }
            },
            PendingKind::Edit => {
                let mut entries: Vec<(String, Json)> = Vec::new();
                let mut assignee: Option<String> = None;
                let mut k: usize = 0;
                while k < self.fields.len()
                    invariant
                        k <= self.fields@.len(),
                        fs == self.fields.deep_view(),
                        entries_view(entries@) =~= edit_map(fs.take(k as int)),
                        match assignee {
                            Some(a) => edit_assignee(fs.take(k as int)) == Some(a@),
                            None => edit_assignee(fs.take(k as int)) is None,
                        },
                    decreases self.fields.len() - k,
                {
                    assert(fs.take(k + 1).drop_last() =~= fs.take(k as int));
                    assert(fs[k as int] == self.fields@[k as int].deep_view());
                    let pf = &self.fields[k];
                    if pf.touched {
                        if str_eq(pf.key.as_str(), "assignee") {
                            assignee = Some(owned(pf.value.as_str()));
                        } else if str_eq(pf.key.as_str(), "labels") {
                            let arr = label_items_of(pf.value.as_str());
                            put(&mut entries, owned("labels"), arr);
                        } else {
                            let j = transition_field_json(&pf.field, pf.value.as_str());
                            put(&mut entries, owned(pf.key.as_str()), j);
                        }
                    }
                    k = k + 1;
                }
                assert(fs.take(self.fields@.len() as int) =~= fs);
                if assignee.is_none() && entries.len() == 0 {
                    assert(entries_view(entries@).len() == 0);
                    Submission::Nothing
                } else {
                    Submission::Edit { key: self.key, assignee, fields: object_of(entries) }
                }
            },
            PendingKind::Create => {
                let mut project = String::new();
                let mut itype = String::new();
                let mut summary = String::new();
                let mut desc = String::new();
                let mut extra: Vec<(String, Json)> = Vec::new();
                let mut k: usize = 0;
                assert(fs.take(0) =~= Seq::<PFieldView>::empty());
                while k < self.fields.len()
                    invariant
                        k <= self.fields@.len(),
                        fs == self.fields.deep_view(),
                        ({
                            let c = create_parts(fs.take(k as int));
                            &&& project@ == c.0
                            &&& itype@ == c.1
                            &&& summary@ == c.2
                            &&& desc@ == c.3
                            &&& entries_view(extra@) =~= c.4
                        }),
                    decreases self.fields.len() - k,
                {
                    assert(fs.take(k + 1).drop_last() =~= fs.take(k as int));
                    assert(fs[k as int] == self.fields@[k as int].deep_view());
                    let pf = &self.fields[k];
                    if str_eq(pf.key.as_str(), "__projtype") {
                        let (a, b) = split_combo_of(pf.value.as_str());
                        project = a;
                        itype = b;
                    } else if str_eq(pf.key.as_str(), "summary") {
                        summary = owned(pf.value.as_str());
                    } else if str_eq(pf.key.as_str(), "description") {
                        desc = owned(pf.value.as_str());
                    } else if !pf.value.as_str().is_empty() {
                        let j = transition_field_json(&pf.field, pf.value.as_str());
                        put(&mut extra, owned(pf.key.as_str()), j);
                    }
                    k = k + 1;
                }
                assert(fs.take(self.fields@.len() as int) =~= fs);
                if trim(summary.as_str()).as_str().is_empty() {
                    Submission::Invalid(owned("Summary is required to create an issue."))
                } else {
                    let description = if trim(desc.as_str()).as_str().is_empty() {
                        None
                    } else {
                        Some(desc)
                    };
                    Submission::Create { project, issue_type: itype, summary, description, extra: object_of(extra) }
                }
            },
        }
    }
}

proof fn lemma_untouched_edit(fs: Seq<PFieldView>)
    requires
        forall|i: int| 0 <= i < fs.len() ==> !(#[trigger] fs[i]).touched,
    ensures
        edit_assignee(fs) is None,
        edit_map(fs).len() == 0,
    decreases fs.len(),
{
    if fs.len() > 0 {
        assert(!fs[fs.len() - 1].touched);
        lemma_untouched_edit(fs.drop_last());
    }
}

/// An edit dialog sends only what the user changed: with no field touched,
/// submitting it asks for nothing.
pub proof fn law_untouched_edit_sends_nothing(p: PendingView)
    requires
        p.kind is Edit,
        forall|i: int| 0 <= i < p.fields.len() ==> !(#[trigger] p.fields[i]).touched,
    ensures
        submission(p) == SubmissionView::Nothing,
{
    lemma_untouched_edit(p.fields);
}

/// Picking another project/type in a "New issue" dialog asks for a rebuild
/// that keeps the summary and description the dialog was built with.
pub proof fn law_create_rebuild_keeps_text(
    opts: Seq<CreateOptionView>,
    selected: Seq<char>,
    summary: Seq<char>,
    description: Seq<char>,
    choice: Seq<char>,
)
    requires
        opts.len() > 0,
    ensures
        ({
            let d = create_dialog(opts, selected, summary, description)->Some_0;
            let fs = changed_fields(d.pending.fields, 0, choice);
            rebuild_request(d.pending.kind, fs, 0) == Some((fs[0].value, summary, description))
        }),
{
    let d = create_dialog(opts, selected, summary, description)->Some_0;
    let fs = changed_fields(d.pending.fields, 0, choice);
    reveal_strlit("__projtype");
    reveal_strlit("summary");
    reveal_strlit("description");
    assert("summary"@ != "__projtype"@) by {
        assert("summary"@.len() != "__projtype"@.len());
    }
    assert("description"@ != "__projtype"@) by {
        assert("description"@.len() != "__projtype"@.len());
    }
    assert("description"@ != "summary"@) by {
        assert("description"@.len() != "summary"@.len());
    }
    let f0 = d.pending.fields;
    assert(f0.len() >= 3);
    assert(f0[0].key == "__projtype"@);
    assert(f0[1].key == "summary"@ && f0[1].value == summary);
    assert(f0[2].key == "description"@ && f0[2].value == description);
    assert(fs[0].key == "__projtype"@);
    assert(fs[1] == f0[1]);
    assert(fs[2] == f0[2]);
    assert(fs.skip(1)[0] == fs[1]);
    assert(field_value(fs.skip(1), "summary"@) == summary);
    assert(field_value(fs, "summary"@) == summary);
    assert(fs.skip(1).skip(1)[0] == fs[2]);
    assert(field_value(fs.skip(1).skip(1), "description"@) == description);
    assert(field_value(fs.skip(1), "description"@) == description);
    assert(field_value(fs, "description"@) == description);
}

} // verus!
