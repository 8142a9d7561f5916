//! The repository-event data model: releases, pull requests, issues and
//! workflow runs, plus the parsed-event sum type the router dispatches on.
//!
//! Parsing raw JSON payloads into these shapes is a data-binding concern that
//! lives outside the library; everything here works on already-bound values.

use vstd::prelude::*;

use crate::strutil::str_eq;

verus! {

pub struct Repository {
    pub full_name: String,
    pub name: String,
}

pub struct User {
    pub login: String,
}

pub struct Release {
    pub tag_name: String,
    pub name: Option<String>,
    pub body: Option<String>,
    pub html_url: String,
}

pub struct ReleaseEvent {
    pub action: String,
    pub release: Release,
    pub repository: Repository,
    pub sender: User,
}

pub struct Label {
    pub name: String,
}

pub struct PullRequest {
    pub number: u64,
    pub title: String,
    pub html_url: String,
    pub merged: Option<bool>,
    pub labels: Vec<Label>,
}

pub struct PullRequestEvent {
    pub action: String,
    pub pull_request: PullRequest,
    pub repository: Repository,
    pub sender: User,
}

pub struct Issue {
    pub number: u64,
    pub title: String,
    pub html_url: String,
    pub labels: Vec<Label>,
}

pub struct IssueEvent {
    pub action: String,
    pub issue: Issue,
    pub repository: Repository,
    pub sender: User,
}

pub struct WorkflowRun {
    pub id: u64,
    pub name: Option<String>,
    pub conclusion: Option<String>,
    pub html_url: String,
    pub head_branch: Option<String>,
}

pub struct WorkflowRunEvent {
    pub action: String,
    pub workflow_run: WorkflowRun,
    pub repository: Repository,
    pub sender: User,
}

/// An inbound event, already classified by its event-type header.
pub enum ParsedEvent {
    Release(ReleaseEvent),
    PullRequest(PullRequestEvent),
    Issue(IssueEvent),
    WorkflowRun(WorkflowRunEvent),
    Unknown,
}

/// The names of a label list, as character sequences.
pub open spec fn label_names(ls: Seq<Label>) -> Seq<Seq<char>> {
    ls.map_values(|l: Label| l.name@)
}

/// A label with exactly this name is present.
pub open spec fn has_label(ls: Seq<Label>, name: Seq<char>) -> bool {
    exists|i: int| 0 <= i < ls.len() && #[trigger] ls[i].name@ == name
}

/// Whether a label list carries a label with exactly this name.
pub fn labels_carry(ls: &Vec<Label>, name: &str) -> (r: bool)
    ensures
        r == has_label(ls@, name@),
{
    let mut i: usize = 0;
    while i < ls.len()
        invariant
            i <= ls@.len(),
            forall|k: int| 0 <= k < i ==> #[trigger] ls@[k].name@ != name@,
        decreases ls@.len() - i,
    {
        if str_eq(ls[i].name.as_str(), name) {
            return true;
        }
        i = i + 1;
    }
    false
}

impl ParsedEvent {
    pub open spec fn spec_action(&self) -> Seq<char>
        recommends
            !(self is Unknown),
    {
        match self {
            ParsedEvent::Release(e) => e.action@,
            ParsedEvent::PullRequest(e) => e.action@,
            ParsedEvent::Issue(e) => e.action@,
            ParsedEvent::WorkflowRun(e) => e.action@,
            ParsedEvent::Unknown => Seq::empty(),
        }
    }

    pub open spec fn spec_event_key(&self) -> Seq<char>
        recommends
            !(self is Unknown),
    {
        match self {
            ParsedEvent::Release(e) => "release."@ + e.action@,
            ParsedEvent::PullRequest(e) => "pull_request."@ + e.action@,
            ParsedEvent::Issue(e) => "issues."@ + e.action@,
            ParsedEvent::WorkflowRun(e) => "workflow_run."@ + e.action@,
            ParsedEvent::Unknown => Seq::empty(),
        }
    }

    /// The `<source>.<action>` key the rule policy matches on.
    pub fn event_key(&self) -> (r: Option<String>)
        ensures
            r is Some <==> !(self is Unknown),
            r matches Some(k) ==> k@ == self.spec_event_key(),
    {
        match self {
            ParsedEvent::Release(e) => {
                let mut k = "release.".to_owned();
                k.append(e.action.as_str());
                Some(k)
            }
            ParsedEvent::PullRequest(e) => {
                let mut k = "pull_request.".to_owned();
                k.append(e.action.as_str());
                Some(k)
            }
            ParsedEvent::Issue(e) => {
                let mut k = "issues.".to_owned();
                k.append(e.action.as_str());
                Some(k)
            }
            ParsedEvent::WorkflowRun(e) => {
                let mut k = "workflow_run.".to_owned();
                k.append(e.action.as_str());
                Some(k)
            }
            ParsedEvent::Unknown => None,
        }
    }

    pub open spec fn spec_repo_full_name(&self) -> Seq<char>
        recommends
            !(self is Unknown),
    {
        match self {
            ParsedEvent::Release(e) => e.repository.full_name@,
            ParsedEvent::PullRequest(e) => e.repository.full_name@,
            ParsedEvent::Issue(e) => e.repository.full_name@,
            ParsedEvent::WorkflowRun(e) => e.repository.full_name@,
            ParsedEvent::Unknown => Seq::empty(),
        }
    }

    /// The full `owner/name` identifier of the repository the event is about.
    pub fn repo_full_name(&self) -> (r: Option<&str>)
        ensures
            r is Some <==> !(self is Unknown),
            r matches Some(s) ==> s@ == self.spec_repo_full_name(),
    {
        match self {
            ParsedEvent::Release(e) => Some(e.repository.full_name.as_str()),
            ParsedEvent::PullRequest(e) => Some(e.repository.full_name.as_str()),
            ParsedEvent::Issue(e) => Some(e.repository.full_name.as_str()),
            ParsedEvent::WorkflowRun(e) => Some(e.repository.full_name.as_str()),
            ParsedEvent::Unknown => None,
        }
    }

    pub open spec fn spec_actor(&self) -> Seq<char>
        recommends
            !(self is Unknown),
    {
        match self {
            ParsedEvent::Release(e) => e.sender.login@,
            ParsedEvent::PullRequest(e) => e.sender.login@,
            ParsedEvent::Issue(e) => e.sender.login@,
            ParsedEvent::WorkflowRun(e) => e.sender.login@,
            ParsedEvent::Unknown => Seq::empty(),
        }
    }

    /// The login of the user the event originates from.
    pub fn actor(&self) -> (r: Option<&str>)
        ensures
            r is Some <==> !(self is Unknown),
            r matches Some(s) ==> s@ == self.spec_actor(),
    {
        match self {
            ParsedEvent::Release(e) => Some(e.sender.login.as_str()),
            ParsedEvent::PullRequest(e) => Some(e.sender.login.as_str()),
            ParsedEvent::Issue(e) => Some(e.sender.login.as_str()),
            ParsedEvent::WorkflowRun(e) => Some(e.sender.login.as_str()),
            ParsedEvent::Unknown => None,
        }
    }

    pub open spec fn spec_labels(&self) -> Seq<Seq<char>> {
        match self {
            ParsedEvent::PullRequest(e) => label_names(e.pull_request.labels@),
            ParsedEvent::Issue(e) => label_names(e.issue.labels@),
            _ => Seq::empty(),
        }
    }

    /// The label names carried by a pull-request or issue event; empty for
    /// every other kind.
    pub fn labels(&self) -> (r: Vec<String>)
        ensures
            r@.len() == self.spec_labels().len(),
            forall|i: int| 0 <= i < r@.len() ==> (#[trigger] r@[i])@ == self.spec_labels()[i],
    {
        match self {
            ParsedEvent::PullRequest(e) => clone_label_names(&e.pull_request.labels),
            ParsedEvent::Issue(e) => clone_label_names(&e.issue.labels),
            _ => Vec::new(),
        }
    }

    pub open spec fn spec_is_merged(&self) -> bool {
        match self {
            ParsedEvent::PullRequest(e) => e.pull_request.merged == Some(true),
            _ => false,
        }
    }

    /// Whether this is a pull-request event whose pull request was merged.
    pub fn is_merged(&self) -> (r: bool)
        ensures
            r == self.spec_is_merged(),
    {
        match self {
            ParsedEvent::PullRequest(e) => match e.pull_request.merged {
                Some(m) => m,
                None => false,
            },
            _ => false,
        }
    }
}

fn clone_label_names(ls: &Vec<Label>) -> (r: Vec<String>)
    ensures
        r@.len() == ls@.len(),
        forall|i: int| 0 <= i < r@.len() ==> (#[trigger] r@[i])@ == label_names(ls@)[i],
{
    let mut r: Vec<String> = Vec::new();
    let mut i: usize = 0;
    while i < ls.len()
        invariant
            i <= ls@.len(),
            r@.len() == i,
            forall|k: int| 0 <= k < i ==> (#[trigger] r@[k])@ == ls@[k].name@,
        decreases ls@.len() - i,
    {
        r.push(ls[i].name.clone());
        i = i + 1;
    }
    r
}

} // verus!
