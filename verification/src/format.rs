//! Message formatting: the titles and bodies posted for each event kind,
//! built verifiably and pinned down character by character.

use vstd::prelude::*;

use crate::events::{IssueEvent, Label, PullRequestEvent, ReleaseEvent, WorkflowRunEvent};
use crate::strutil::{dec_str, u64_to_dec};

verus! {

pub const COLOR_SUCCESS: u32 = 0x2ECC71;

pub const COLOR_FAILURE: u32 = 0xE74C3C;

pub const COLOR_SKIPPED: u32 = 0x95A5A6;

pub const COLOR_PR: u32 = 0x9B59B6;

pub const COLOR_BOUNTY: u32 = 0xF1C40F;

pub const COLOR_ISSUE: u32 = 0x3498DB;

/// The view of an optional string, with a default.
pub open spec fn opt_str(o: Option<String>, d: Seq<char>) -> Seq<char> {
    match o {
        Some(s) => s@,
        None => d,
    }
}

/// Label names joined with `, `.
pub open spec fn joined_names(ls: Seq<Label>, acc_if_empty: Seq<char>) -> Seq<char>
    decreases ls.len(),
{
    if ls.len() == 0 {
        acc_if_empty
    } else if ls.len() == 1 {
        ls[0].name@
    } else {
        joined_names(ls.drop_last(), acc_if_empty) + ", "@ + ls.last().name@
    }
}

fn join_label_names(ls: &Vec<Label>) -> (r: String)
    ensures
        r@ == joined_names(ls@, Seq::<char>::empty()),
{
    proof {
        reveal_strlit("");
        reveal_strlit(", ");
    }
    let mut acc = "".to_owned();
    let mut i: usize = 0;
    while i < ls.len()
        invariant
            i <= ls@.len(),
            acc@ == joined_names(ls@.subrange(0, i as int), Seq::<char>::empty()),
        decreases ls@.len() - i,
    {
        proof {
            reveal_strlit(", ");
            assert(ls@.subrange(0, i + 1 as int).drop_last() =~= ls@.subrange(0, i as int));
        }
        if i > 0 {
            acc.append(", ");
        }
        acc.append(ls[i].name.as_str());
        proof {
            if i == 0 {
                assert(acc@ =~= joined_names(ls@.subrange(0, i + 1 as int), Seq::<char>::empty()));
            }
        }
        i = i + 1;
    }
    proof {
        assert(ls@.subrange(0, ls@.len() as int) =~= ls@);
    }
    acc
}

pub open spec fn spec_release_title(e: ReleaseEvent) -> Seq<char> {
    "🚀 Release "@ + e.release.tag_name@
}

pub open spec fn spec_release_body(e: ReleaseEvent) -> Seq<char> {
    "**"@ + e.repository.full_name@ + "** released `"@ + e.release.tag_name@ + "`\n\n"@ + opt_str(
        e.release.body,
        Seq::empty(),
    ) + "\n\n[View Release]("@ + e.release.html_url@ + ")"@
}

/// Title and body posted for a published release.
pub fn format_release(event: &ReleaseEvent) -> (r: (String, String))
    ensures
        r.0@ == spec_release_title(*event),
        r.1@ == spec_release_body(*event),
{
    let mut title = "🚀 Release ".to_owned();
    title.append(event.release.tag_name.as_str());
    let mut body = "**".to_owned();
    body.append(event.repository.full_name.as_str());
    body.append("** released `");
    body.append(event.release.tag_name.as_str());
    body.append("`\n\n");
    match &event.release.body {
        Some(b) => body.append(b.as_str()),
        None => (),
    }
    body.append("\n\n[View Release](");
    body.append(event.release.html_url.as_str());
    body.append(")");
    (title, body)
}

pub open spec fn spec_pr_merged_label_str(e: PullRequestEvent) -> Seq<char> {
    if e.pull_request.labels@.len() == 0 {
        Seq::empty()
    } else {
        " ["@ + joined_names(e.pull_request.labels@, Seq::empty()) + "]"@
    }
}

pub open spec fn spec_pr_merged_title(e: PullRequestEvent) -> Seq<char> {
    "🧩 PR merged: #"@ + dec_str(e.pull_request.number as int) + spec_pr_merged_label_str(e)
}

pub open spec fn spec_pr_merged_body(e: PullRequestEvent) -> Seq<char> {
    "**"@ + e.pull_request.title@ + "**\n\nMerged by @"@ + e.sender.login@ + "\n\n[View PR]("@
        + e.pull_request.html_url@ + ")"@
}

/// Title and body posted for a merged pull request, its labels listed after
/// the number.
pub fn format_pr_merged(event: &PullRequestEvent) -> (r: (String, String))
    ensures
        r.0@ == spec_pr_merged_title(*event),
        r.1@ == spec_pr_merged_body(*event),
{
    let mut title = "🧩 PR merged: #".to_owned();
    title.append(u64_to_dec(event.pull_request.number).as_str());
    if event.pull_request.labels.len() > 0 {
        title.append(" [");
        title.append(join_label_names(&event.pull_request.labels).as_str());
        title.append("]");
    }
    let mut body = "**".to_owned();
    body.append(event.pull_request.title.as_str());
    body.append("**\n\nMerged by @");
    body.append(event.sender.login.as_str());
    body.append("\n\n[View PR](");
    body.append(event.pull_request.html_url.as_str());
    body.append(")");
    (title, body)
}

pub open spec fn spec_issue_emoji(e: IssueEvent) -> Seq<char> {
    if crate::events::has_label(e.issue.labels@, "bounty"@) {
        "🪙"@
    } else {
        "📋"@
    }
}

pub open spec fn spec_issue_title(e: IssueEvent) -> Seq<char> {
    spec_issue_emoji(e) + " Issue #"@ + dec_str(e.issue.number as int) + ": "@ + e.issue.title@
}

pub open spec fn spec_issue_body(e: IssueEvent) -> Seq<char> {
    "Opened by @"@ + e.sender.login@ + "\nLabels: "@ + joined_names(e.issue.labels@, Seq::empty())
        + "\n\n[View Issue]("@ + e.issue.html_url@ + ")"@
}

/// Title and body posted for an issue, a coin for a bounty and a clipboard
/// otherwise.
pub fn format_issue(event: &IssueEvent) -> (r: (String, String))
    ensures
        r.0@ == spec_issue_title(*event),
        r.1@ == spec_issue_body(*event),
{
    let has_bounty = crate::events::labels_carry(&event.issue.labels, "bounty");
    let mut title = if has_bounty {
        "🪙".to_owned()
    } else {
        "📋".to_owned()
    };
    title.append(" Issue #");
    title.append(u64_to_dec(event.issue.number).as_str());
    title.append(": ");
    title.append(event.issue.title.as_str());
    let mut body = "Opened by @".to_owned();
    body.append(event.sender.login.as_str());
    body.append("\nLabels: ");
    body.append(join_label_names(&event.issue.labels).as_str());
    body.append("\n\n[View Issue](");
    body.append(event.issue.html_url.as_str());
    body.append(")");
    (title, body)
}

pub open spec fn spec_workflow_conclusion(e: WorkflowRunEvent) -> Seq<char> {
    opt_str(e.workflow_run.conclusion, "unknown"@)
}

pub open spec fn spec_workflow_emoji(e: WorkflowRunEvent) -> Seq<char> {
    if spec_workflow_conclusion(e) == "success"@ {
        "✅"@
    } else {
        "❌"@
    }
}

pub open spec fn spec_workflow_title(e: WorkflowRunEvent) -> Seq<char> {
    spec_workflow_emoji(e) + " CI: "@ + opt_str(e.workflow_run.name, "Workflow"@)
}

pub open spec fn spec_workflow_body(e: WorkflowRunEvent) -> Seq<char> {
    "**"@ + e.repository.full_name@ + "** - "@ + spec_workflow_conclusion(e) + "\n\n[View Run]("@
        + e.workflow_run.html_url@ + ")"@
}

/// Title and body posted for a completed workflow run, colored by its
/// conclusion.
pub fn format_workflow(event: &WorkflowRunEvent) -> (r: (String, String))
    ensures
        r.0@ == spec_workflow_title(*event),
        r.1@ == spec_workflow_body(*event),
{
    let conclusion: &str = match &event.workflow_run.conclusion {
        Some(c) => c.as_str(),
        None => "unknown",
    };
    let success = crate::strutil::str_eq(conclusion, "success");
    let mut title = if success {
        "✅".to_owned()
    } else {
        "❌".to_owned()
    };
    title.append(" CI: ");
    match &event.workflow_run.name {
        Some(n) => title.append(n.as_str()),
        None => title.append("Workflow"),
    }
    let mut body = "**".to_owned();
    body.append(event.repository.full_name.as_str());
    body.append("** - ");
    body.append(conclusion);
    body.append("\n\n[View Run](");
    body.append(event.workflow_run.html_url.as_str());
    body.append(")");
    (title, body)
}

} // verus!
