//! Typed views over the Jira REST API JSON: only the fields a daily-driver needs.
use vstd::prelude::*;
use crate::text::str_eq;

verus! {

/// Any `{ name, id }`-shaped reference (status, priority, issue type, …).
#[derive(Debug)]
pub struct NamedRef {
    pub name: String,
    pub id: String,
}

impl Clone for NamedRef {
    fn clone(&self) -> (r: Self)
        ensures
            r.deep_view() == self.deep_view(),
    {
        NamedRef { name: self.name.clone(), id: self.id.clone() }
    }
}

#[derive(Debug)]
pub struct User {
    pub display_name: String,
    /// Cloud uses `accountId`; Server/DC uses `name` — both are kept.
    pub account_id: String,
    pub name: String,
    pub email: String,
}

impl Clone for User {
    fn clone(&self) -> (r: Self)
        ensures
            r.deep_view() == self.deep_view(),
    {
        User {
            display_name: self.display_name.clone(),
            account_id: self.account_id.clone(),
            name: self.name.clone(),
            email: self.email.clone(),
        }
    }
}

#[derive(Debug)]
pub struct Comment {
    pub id: String,
    pub author: Option<User>,
    pub body: String,
    pub created: String,
}

impl Clone for Comment {
    fn clone(&self) -> (r: Self)
        ensures
            r.deep_view() == self.deep_view(),
    {
        Comment {
            id: self.id.clone(),
            author: self.author.clone(),
            body: self.body.clone(),
            created: self.created.clone(),
        }
    }
}

#[derive(Debug)]
pub struct CommentPage {
    pub comments: Vec<Comment>,
    pub total: u32,
}

impl Clone for CommentPage {
    fn clone(&self) -> (r: Self)
        ensures
            r.deep_view() == self.deep_view(),
    {
        let comments = self.comments.clone();
        assert(comments.deep_view() =~= self.comments.deep_view());
        CommentPage { comments, total: self.total }
    }
}

impl Default for CommentPage {
    fn default() -> (r: Self)
        ensures
            r.comments@.len() == 0,
            r.total == 0,
    {
        CommentPage { comments: Vec::new(), total: 0 }
    }
}

/// Clones a list of strings, element for element.
pub fn clone_strings(v: &Vec<String>) -> (r: Vec<String>)
    ensures
        r@ == v@,
{
    let r = v.clone();
    assert(r@ =~= v@);
    r
}

#[derive(Debug)]
pub struct Fields {
    pub summary: String,
    pub status: Option<NamedRef>,
    pub assignee: Option<User>,
    pub reporter: Option<User>,
    pub priority: Option<NamedRef>,
    pub issuetype: Option<NamedRef>,
    pub labels: Vec<String>,
    pub updated: String,
    pub created: String,
    pub duedate: Option<String>,
    /// In API v2 the description is a plain/wiki string.
    pub description: Option<String>,
    pub comment: Option<CommentPage>,
}

impl Clone for Fields {
    fn clone(&self) -> (r: Self)
        ensures
            r.deep_view() == self.deep_view(),
    {
        Fields {
            summary: self.summary.clone(),
            status: self.status.clone(),
            assignee: self.assignee.clone(),
            reporter: self.reporter.clone(),
            priority: self.priority.clone(),
            issuetype: self.issuetype.clone(),
            labels: clone_strings(&self.labels),
            updated: self.updated.clone(),
            created: self.created.clone(),
            duedate: self.duedate.clone(),
            description: self.description.clone(),
            comment: self.comment.clone(),
        }
    }
}

impl Default for Fields {
    fn default() -> (r: Self)
        ensures
            r.summary@.len() == 0,
            r.status is None,
            r.assignee is None,
            r.reporter is None,
            r.priority is None,
            r.issuetype is None,
            r.labels@.len() == 0,
            r.updated@.len() == 0,
            r.created@.len() == 0,
            r.duedate is None,
            r.description is None,
            r.comment is None,
    {
        Fields {
            summary: String::new(),
            status: None,
            assignee: None,
            reporter: None,
            priority: None,
            issuetype: None,
            labels: Vec::new(),
            updated: String::new(),
            created: String::new(),
            duedate: None,
            description: None,
            comment: None,
        }
    }
}

/// A single issue, flattened to the bits the UI shows.
#[derive(Debug)]
pub struct Issue {
    pub key: String,
    pub id: String,
    pub fields: Fields,
}

impl Clone for Issue {
    fn clone(&self) -> (r: Self)
        ensures
            r.deep_view() == self.deep_view(),
    {
        Issue { key: self.key.clone(), id: self.id.clone(), fields: self.fields.clone() }
    }
}

/// Status name of an issue, empty when it has none.
pub open spec fn status_name(i: IssueView) -> Seq<char> {
    match i.fields.status {
        Some(s) => s.name,
        None => seq![],
    }
}

/// Display name of the assignee, `Unassigned` when there is none.
pub open spec fn assignee_name(i: IssueView) -> Seq<char> {
    match i.fields.assignee {
        Some(u) => u.display_name,
        None => "Unassigned"@,
    }
}

pub open spec fn priority_name(i: IssueView) -> Seq<char> {
    match i.fields.priority {
        Some(p) => p.name,
        None => seq![],
    }
}

pub open spec fn issue_type_of(i: IssueView) -> Seq<char> {
    match i.fields.issuetype {
        Some(t) => t.name,
        None => seq![],
    }
}

impl Issue {
    pub fn summary(&self) -> (r: &str)
        ensures
            r@ == self.fields.summary@,
    {
        self.fields.summary.as_str()
    }

    pub fn status(&self) -> (r: &str)
        ensures
            r@ == status_name(self.deep_view()),
    {
        match &self.fields.status {
            Some(s) => s.name.as_str(),
            None => {
                proof {
                    reveal_strlit("");
                }
                ""
            },
        }
    }

    pub fn assignee(&self) -> (r: &str)
        ensures
            r@ == assignee_name(self.deep_view()),
    {
        match &self.fields.assignee {
            Some(u) => u.display_name.as_str(),
            None => "Unassigned",
        }
    }

    pub fn priority(&self) -> (r: &str)
        ensures
            r@ == priority_name(self.deep_view()),
    {
        match &self.fields.priority {
            Some(p) => p.name.as_str(),
            None => {
                proof {
                    reveal_strlit("");
                }
                ""
            },
        }
    }

    pub fn issue_type(&self) -> (r: &str)
        ensures
            r@ == issue_type_of(self.deep_view()),
    {
        match &self.fields.issuetype {
            Some(t) => t.name.as_str(),
            None => {
                proof {
                    reveal_strlit("");
                }
                ""
            },
        }
    }
}

/// Result of a JQL search (`/search`).
#[derive(Debug)]
pub struct SearchResult {
    pub issues: Vec<Issue>,
    pub total: u32,
    pub start_at: u32,
}

#[derive(Debug)]
pub struct FieldSchema {
    pub type_: String,
    pub items: String,
}

impl Clone for FieldSchema {
    fn clone(&self) -> (r: Self)
        ensures
            r.deep_view() == self.deep_view(),
    {
        FieldSchema { type_: self.type_.clone(), items: self.items.clone() }
    }
}

impl Default for FieldSchema {
    fn default() -> (r: Self)
        ensures
            r.type_@.len() == 0,
            r.items@.len() == 0,
    {
        FieldSchema { type_: String::new(), items: String::new() }
    }
}

#[derive(Debug)]
pub struct AllowedValue {
    pub id: String,
    pub name: String,
    pub value: String,
}

impl Clone for AllowedValue {
    fn clone(&self) -> (r: Self)
        ensures
            r.deep_view() == self.deep_view(),
    {
        AllowedValue { id: self.id.clone(), name: self.name.clone(), value: self.value.clone() }
    }
}

impl Default for AllowedValue {
    fn default() -> (r: Self)
        ensures
            r.id@.len() == 0,
            r.name@.len() == 0,
            r.value@.len() == 0,
    {
        AllowedValue { id: String::new(), name: String::new(), value: String::new() }
    }
}

/// Human label of an allowed value: `name`, or `value` when the name is empty.
pub open spec fn label_of(a: AllowedValueView) -> Seq<char> {
    if a.name.len() > 0 {
        a.name
    } else {
        a.value
    }
}

impl AllowedValue {
    /// Human label (Jira uses `name` for most, `value` for custom options).
    pub fn label(&self) -> (r: &str)
        ensures
            r@ == label_of(self.deep_view()),
    {
        if !self.name.as_str().is_empty() {
            self.name.as_str()
        } else {
            self.value.as_str()
        }
    }
}

/// Clones a list of allowed values.
pub fn clone_allowed(v: &Vec<AllowedValue>) -> (r: Vec<AllowedValue>)
    ensures
        r.deep_view() == v.deep_view(),
{
    let r = v.clone();
    assert(r.deep_view() =~= v.deep_view());
    r
}

#[derive(Debug)]
pub struct TransitionField {
    pub required: bool,
    pub name: String,
    pub schema: FieldSchema,
    /// Permitted values for select-type fields.
    pub allowed_values: Vec<AllowedValue>,
}

impl Clone for TransitionField {
    fn clone(&self) -> (r: Self)
        ensures
            r.deep_view() == self.deep_view(),
    {
        TransitionField {
            required: self.required,
            name: self.name.clone(),
            schema: self.schema.clone(),
            allowed_values: clone_allowed(&self.allowed_values),
        }
    }
}

impl Default for TransitionField {
    fn default() -> (r: Self)
        ensures
            !r.required,
            r.name@.len() == 0,
            r.schema.type_@.len() == 0,
            r.schema.items@.len() == 0,
            r.allowed_values@.len() == 0,
    {
        TransitionField {
            required: false,
            name: String::new(),
            schema: FieldSchema::default(),
            allowed_values: Vec::new(),
        }
    }
}

impl TransitionField {
    /// True when this field is a pick-list (render a dropdown, not a text box).
    pub fn has_options(&self) -> (r: bool)
        ensures
            r == (self.allowed_values@.len() > 0),
    {
        !self.allowed_values.is_empty()
    }

    pub fn is_array(&self) -> (r: bool)
        ensures
            r == (self.schema.type_@ == "array"@),
    {
        str_eq(self.schema.type_.as_str(), "array")
    }
}

/// Field metadata keyed by Jira field key (`resolution`, `customfield_10010`, …),
/// in key order.
pub type FieldList = Vec<(String, TransitionField)>;

/// The field named `key` in a field list (first match).
pub open spec fn field_of(fields: Seq<(String, TransitionField)>, key: Seq<char>) -> Option<
    TransitionField,
>
    decreases fields.len(),
{
    if fields.len() == 0 {
        None
    } else if fields[0].0@ == key {
        Some(fields[0].1)
    } else {
        field_of(fields.skip(1), key)
    }
}

/// Looks up the field named `key`.
pub fn find_field<'a>(fields: &'a Vec<(String, TransitionField)>, key: &str) -> (r: Option<
    &'a TransitionField,
>)
    ensures
        r matches Some(f) ==> field_of(fields@, key@) == Some(*f),
        r is None ==> field_of(fields@, key@) is None,
{
    let mut i: usize = 0;
    assert(fields@.skip(0) == fields@);
    while i < fields.len()
        invariant
            i <= fields@.len(),
            field_of(fields@, key@) == field_of(fields@.skip(i as int), key@),
        decreases fields.len() - i,
    {
        assert(fields@.skip(i as int).skip(1) == fields@.skip(i + 1));
        assert(fields@.skip(i as int)[0] == fields@[i as int]);
        if str_eq(fields[i].0.as_str(), key) {
            return Some(&fields[i].1);
        }
        i = i + 1;
    }
    None
}

/// Clones a field list.
pub fn clone_fields(v: &Vec<(String, TransitionField)>) -> (r: Vec<(String, TransitionField)>)
    ensures
        r.deep_view() == v.deep_view(),
{
    let mut r: Vec<(String, TransitionField)> = Vec::new();
    let mut i: usize = 0;
    while i < v.len()
        invariant
            i <= v@.len(),
            r.deep_view() == v.deep_view().take(i as int),
        decreases v.len() - i,
    {
        let k = v[i].0.clone();
        let f = v[i].1.clone();
        assert((k, f).deep_view() == v@[i as int].deep_view());
        let ghost before = r.deep_view();
        r.push((k, f));
        assert(r.deep_view() =~= before.push(v@[i as int].deep_view()));
        assert(r.deep_view() =~= v.deep_view().take(i + 1));
        i = i + 1;
    }
    assert(v.deep_view().take(v@.len() as int) =~= v.deep_view());
    r
}

/// A workflow transition available from an issue's current status.
#[derive(Debug)]
pub struct Transition {
    pub id: String,
    pub name: String,
    /// The status the issue moves to.
    pub to: Option<NamedRef>,
    /// Fields this transition requires/allows.
    pub fields: Vec<(String, TransitionField)>,
}

impl Clone for Transition {
    fn clone(&self) -> (r: Self)
        ensures
            r.deep_view() == self.deep_view(),
    {
        Transition {
            id: self.id.clone(),
            name: self.name.clone(),
            to: self.to.clone(),
            fields: clone_fields(&self.fields),
        }
    }
}

impl Transition {
    /// The field named `key` of this transition.
    pub fn field(&self, key: &str) -> (r: Option<&TransitionField>)
        ensures
            r matches Some(f) ==> field_of(self.fields@, key@) == Some(*f),
            r is None ==> field_of(self.fields@, key@) is None,
    {
        find_field(&self.fields, key)
    }
}

#[derive(Debug)]
pub struct TransitionsResponse {
    pub transitions: Vec<Transition>,
}

/// `/issue/{key}/editmeta` — the fields editable on an issue.
#[derive(Debug)]
pub struct EditMeta {
    pub fields: Vec<(String, TransitionField)>,
}

impl Default for EditMeta {
    fn default() -> (r: Self)
        ensures
            r.fields@.len() == 0,
    {
        EditMeta { fields: Vec::new() }
    }
}

/// An issue type offered by a project in createmeta, with its field metadata.
#[derive(Debug)]
pub struct CreateIssueType {
    pub name: String,
    pub id: String,
    pub fields: Vec<(String, TransitionField)>,
}

/// A project you can create issues in, and the issue types it offers.
#[derive(Debug)]
pub struct CreateProject {
    pub key: String,
    pub name: String,
    pub issuetypes: Vec<CreateIssueType>,
}

impl Default for CreateProject {
    fn default() -> (r: Self)
        ensures
            r.key@.len() == 0,
            r.name@.len() == 0,
            r.issuetypes@.len() == 0,
    {
        CreateProject { key: String::new(), name: String::new(), issuetypes: Vec::new() }
    }
}

/// `/issue/createmeta` — the projects you can create in.
#[derive(Debug)]
pub struct CreateMeta {
    pub projects: Vec<CreateProject>,
}

impl Default for CreateMeta {
    fn default() -> (r: Self)
        ensures
            r.projects@.len() == 0,
    {
        CreateMeta { projects: Vec::new() }
    }
}

/// One project × issue type you can create in, with the type's required fields.
#[derive(Debug)]
pub struct CreateOption {
    pub project_key: String,
    pub project_name: String,
    pub issuetype_name: String,
    pub required: Vec<(String, TransitionField)>,
}

impl Clone for CreateOption {
    fn clone(&self) -> (r: Self)
        ensures
            r.deep_view() == self.deep_view(),
    {
        CreateOption {
            project_key: self.project_key.clone(),
            project_name: self.project_name.clone(),
            issuetype_name: self.issuetype_name.clone(),
            required: clone_fields(&self.required),
        }
    }
}

/// Mathematical value of a [`NamedRef`].
pub struct NamedRefView {
    pub name: Seq<char>,
    pub id: Seq<char>,
}

impl DeepView for NamedRef {
    type V = NamedRefView;

    open spec fn deep_view(&self) -> NamedRefView {
        NamedRefView {
            name: self.name@,
            id: self.id@,
        }
    }
}

/// Mathematical value of a [`User`].
pub struct UserView {
    pub display_name: Seq<char>,
    pub account_id: Seq<char>,
    pub name: Seq<char>,
    pub email: Seq<char>,
}

impl DeepView for User {
    type V = UserView;

    open spec fn deep_view(&self) -> UserView {
        UserView {
            display_name: self.display_name@,
            account_id: self.account_id@,
            name: self.name@,
            email: self.email@,
        }
    }
}

/// Mathematical value of a [`Comment`].
pub struct CommentView {
    pub id: Seq<char>,
    pub author: Option<UserView>,
    pub body: Seq<char>,
    pub created: Seq<char>,
}

impl DeepView for Comment {
    type V = CommentView;

    open spec fn deep_view(&self) -> CommentView {
        CommentView {
            id: self.id@,
            author: self.author.deep_view(),
            body: self.body@,
            created: self.created@,
        }
    }
}

/// Mathematical value of a [`CommentPage`].
pub struct CommentPageView {
    pub comments: Seq<CommentView>,
    pub total: u32,
}

impl DeepView for CommentPage {
    type V = CommentPageView;

    open spec fn deep_view(&self) -> CommentPageView {
        CommentPageView {
            comments: self.comments.deep_view(),
            total: self.total,
        }
    }
}

/// Mathematical value of a [`Fields`].
pub struct FieldsView {
    pub summary: Seq<char>,
    pub status: Option<NamedRefView>,
    pub assignee: Option<UserView>,
    pub reporter: Option<UserView>,
    pub priority: Option<NamedRefView>,
    pub issuetype: Option<NamedRefView>,
    pub labels: Seq<Seq<char>>,
    pub updated: Seq<char>,
    pub created: Seq<char>,
    pub duedate: Option<Seq<char>>,
    pub description: Option<Seq<char>>,
    pub comment: Option<CommentPageView>,
}

impl DeepView for Fields {
    type V = FieldsView;

    open spec fn deep_view(&self) -> FieldsView {
        FieldsView {
            summary: self.summary@,
            status: self.status.deep_view(),
            assignee: self.assignee.deep_view(),
            reporter: self.reporter.deep_view(),
            priority: self.priority.deep_view(),
            issuetype: self.issuetype.deep_view(),
            labels: self.labels.deep_view(),
            updated: self.updated@,
            created: self.created@,
            duedate: self.duedate.deep_view(),
            description: self.description.deep_view(),
            comment: self.comment.deep_view(),
        }
    }
}

/// Mathematical value of a [`Issue`].
pub struct IssueView {
    pub key: Seq<char>,
    pub id: Seq<char>,
    pub fields: FieldsView,
}

impl DeepView for Issue {
    type V = IssueView;

    open spec fn deep_view(&self) -> IssueView {
        IssueView {
            key: self.key@,
            id: self.id@,
            fields: self.fields.deep_view(),
        }
    }
}

/// Mathematical value of a [`FieldSchema`].
pub struct FieldSchemaView {
    pub type_: Seq<char>,
    pub items: Seq<char>,
}

impl DeepView for FieldSchema {
    type V = FieldSchemaView;

    open spec fn deep_view(&self) -> FieldSchemaView {
        FieldSchemaView {
            type_: self.type_@,
            items: self.items@,
        }
    }
}

/// Mathematical value of a [`AllowedValue`].
pub struct AllowedValueView {
    pub id: Seq<char>,
    pub name: Seq<char>,
    pub value: Seq<char>,
}

impl DeepView for AllowedValue {
    type V = AllowedValueView;

    open spec fn deep_view(&self) -> AllowedValueView {
        AllowedValueView {
            id: self.id@,
            name: self.name@,
            value: self.value@,
        }
    }
}

/// Mathematical value of a [`TransitionField`].
pub struct TransitionFieldView {
    pub required: bool,
    pub name: Seq<char>,
    pub schema: FieldSchemaView,
    pub allowed_values: Seq<AllowedValueView>,
}

impl DeepView for TransitionField {
    type V = TransitionFieldView;

    open spec fn deep_view(&self) -> TransitionFieldView {
        TransitionFieldView {
            required: self.required,
            name: self.name@,
            schema: self.schema.deep_view(),
            allowed_values: self.allowed_values.deep_view(),
        }
    }
}

/// Mathematical value of a [`Transition`].
pub struct TransitionView {
    pub id: Seq<char>,
    pub name: Seq<char>,
    pub to: Option<NamedRefView>,
    pub fields: Seq<(Seq<char>, TransitionFieldView)>,
}

impl DeepView for Transition {
    type V = TransitionView;

    open spec fn deep_view(&self) -> TransitionView {
        TransitionView {
            id: self.id@,
            name: self.name@,
            to: self.to.deep_view(),
            fields: self.fields.deep_view(),
        }
    }
}

/// Mathematical value of a [`CreateOption`].
pub struct CreateOptionView {
    pub project_key: Seq<char>,
    pub project_name: Seq<char>,
    pub issuetype_name: Seq<char>,
    pub required: Seq<(Seq<char>, TransitionFieldView)>,
}

impl DeepView for CreateOption {
    type V = CreateOptionView;

    open spec fn deep_view(&self) -> CreateOptionView {
        CreateOptionView {
            project_key: self.project_key@,
            project_name: self.project_name@,
            issuetype_name: self.issuetype_name@,
            required: self.required.deep_view(),
        }
    }
}

/// Mathematical value of a [`CreateIssueType`].
pub struct CreateIssueTypeView {
    pub name: Seq<char>,
    pub id: Seq<char>,
    pub fields: Seq<(Seq<char>, TransitionFieldView)>,
}

impl DeepView for CreateIssueType {
    type V = CreateIssueTypeView;

    open spec fn deep_view(&self) -> CreateIssueTypeView {
        CreateIssueTypeView { name: self.name@, id: self.id@, fields: self.fields.deep_view() }
    }
}

/// Mathematical value of a [`CreateProject`].
pub struct CreateProjectView {
    pub key: Seq<char>,
    pub name: Seq<char>,
    pub issuetypes: Seq<CreateIssueTypeView>,
}

impl DeepView for CreateProject {
    type V = CreateProjectView;

    open spec fn deep_view(&self) -> CreateProjectView {
        CreateProjectView { key: self.key@, name: self.name@, issuetypes: self.issuetypes.deep_view() }
    }
}

/// `a` sorts before `b`: character by character, a proper prefix first (the
/// order of `String` keys, as a `BTreeMap` keeps them).
pub open spec fn key_less(a: Seq<char>, b: Seq<char>) -> bool
    decreases a.len(),
{
    if a.len() == 0 {
        b.len() > 0
    } else if b.len() == 0 {
        false
    } else if a[0] != b[0] {
        (a[0] as u32) < (b[0] as u32)
    } else {
        key_less(a.skip(1), b.skip(1))
    }
}

/// A field list as Jira's field maps arrive: keys strictly ascending, so in
/// key order and none twice.
pub open spec fn keys_ascending(fs: Seq<(Seq<char>, TransitionFieldView)>) -> bool {
    forall|i: int, j: int| 0 <= i < j < fs.len() ==> key_less(#[trigger] fs[i].0, #[trigger] fs[j].0)
}

/// No key occurs twice in a field list.
pub open spec fn keys_unique(fs: Seq<(Seq<char>, TransitionFieldView)>) -> bool {
    forall|i: int, j: int| 0 <= i < j < fs.len() ==> #[trigger] fs[i].0 != #[trigger] fs[j].0
}

/// No key sorts before itself.
pub proof fn lemma_key_less_irreflexive(a: Seq<char>)
    ensures
        !key_less(a, a),
    decreases a.len(),
{
    if a.len() > 0 {
        lemma_key_less_irreflexive(a.skip(1));
    }
}

/// A field list in ascending key order holds each key once.
pub proof fn lemma_ascending_keys_unique(fs: Seq<(Seq<char>, TransitionFieldView)>)
    requires
        keys_ascending(fs),
    ensures
        keys_unique(fs),
{
    assert forall|i: int, j: int| 0 <= i < j < fs.len() implies #[trigger] fs[i].0 != #[trigger] fs[j].0 by {
        lemma_key_less_irreflexive(fs[i].0);
    }
}

} // verus!
