//! The `Jira` trait, the seam front ends talk to, and the errors its back
//! ends share.
use vstd::prelude::*;
use crate::json::Json;
use crate::model::{Comment, CreateOption, Issue, SearchResult, Transition, TransitionField, User};
use crate::text::{owned, push_decimal, push_str};

verus! {

/// Why a Jira call failed.
#[derive(Debug, PartialEq, Eq)]
pub enum JiraError {
    /// No issue has this key.
    NoSuchIssue(String),
    /// The issue's workflow offers no transition with this id.
    TransitionNotAvailable(String),
    /// Jira answered with an error status; the first 300 characters of the body.
    Status(u16, String),
    /// The request never got an answer (network / TLS).
    Request(String),
    /// The answer could not be read.
    Parse(String),
}

impl JiraError {
    /// The error as a sentence for the user.
    pub open spec fn message_of(&self) -> Seq<char> {
        match *self {
            JiraError::NoSuchIssue(k) => "no such issue "@ + k@,
            JiraError::TransitionNotAvailable(t) => "transition "@ + t@ + " not available"@,
            JiraError::Status(code, s) => "Jira returned "@ + crate::text::decimal(code as nat)
                + ": "@ + s@,
            JiraError::Request(e) => "Jira request failed (network/TLS): "@ + e@,
            JiraError::Parse(e) => "could not read Jira's answer: "@ + e@,
        }
    }

    pub fn message(&self) -> (r: String)
        ensures
            r@ == self.message_of(),
    {
        match self {
            JiraError::NoSuchIssue(k) => {
                let mut r = owned("no such issue ");
                push_str(&mut r, k.as_str());
                r
            },
            JiraError::TransitionNotAvailable(t) => {
                let mut r = owned("transition ");
                push_str(&mut r, t.as_str());
                push_str(&mut r, " not available");
                r
            },
            JiraError::Status(code, s) => {
                let mut r = owned("Jira returned ");
                push_decimal(&mut r, *code as u128);
                push_str(&mut r, ": ");
                push_str(&mut r, s.as_str());
                r
            },
            JiraError::Request(e) => {
                let mut r = owned("Jira request failed (network/TLS): ");
                push_str(&mut r, e.as_str());
                r
            },
            JiraError::Parse(e) => {
                let mut r = owned("could not read Jira's answer: ");
                push_str(&mut r, e.as_str());
                r
            },
        }
    }
}

/// The seam front ends talk to: live Jira or the in-memory demo. Writes take
/// `&mut self`, since the demo keeps its state in place.
pub trait Jira {
    /// Whether the source can number one more created issue (always, unless
    /// the source says otherwise).
    open spec fn can_create(&self) -> bool {
        true
    }

    fn myself(&self) -> Result<User, JiraError>;

    fn my_issues(&self, max: u32) -> Result<Vec<Issue>, JiraError>;

    fn search(&self, jql: &str, max: u32) -> Result<SearchResult, JiraError>;

    fn issue(&self, key: &str) -> Result<Issue, JiraError>;

    fn transitions(&self, key: &str) -> Result<Vec<Transition>, JiraError>;

    fn transition(&mut self, key: &str, transition_id: &str, fields: Json) -> Result<(), JiraError>;

    /// Projects × issue types you can create in, with each type's required fields.
    fn create_targets(&self) -> Result<Vec<CreateOption>, JiraError>;

    /// Users who can be assigned this issue (for the assignee picker).
    fn assignable_users(&self, key: &str) -> Result<Vec<User>, JiraError>;

    /// Fields editable on this issue (standard + custom), with their metadata.
    fn edit_meta(&self, key: &str) -> Result<Vec<(String, TransitionField)>, JiraError>;

    /// Updates issue fields; `fields` is the Jira `fields` object.
    fn update_issue(&mut self, key: &str, fields: Json) -> Result<(), JiraError>;

    fn add_comment(&mut self, key: &str, body: &str) -> Result<Comment, JiraError>;

    /// Service-desk comment with visibility: `public` replies to the customer,
    /// otherwise an internal note.
    fn add_request_comment(&mut self, key: &str, body: &str, public: bool) -> Result<(), JiraError>;

    fn assign(&mut self, key: &str, assignee: &str) -> Result<(), JiraError>;

    fn create_issue(
        &mut self,
        project_key: &str,
        issue_type: &str,
        summary: &str,
        description: Option<&str>,
        extra: Json,
    ) -> Result<String, JiraError>
        requires
            old(self).can_create(),
    ;

    fn browse_url(&self, key: &str) -> String;

    /// The issue's current field values, as the entries of its `fields`
    /// object; sources that cannot tell give none.
    fn raw_fields(&self, key: &str) -> Result<Vec<(String, Json)>, JiraError> {
        Ok(Vec::new())
    }
}

} // verus!
