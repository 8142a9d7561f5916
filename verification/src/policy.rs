//! The filter policy: three independent, pure decisions per event.
//!
//! `should_log` feeds the project's persistent activity thread, `should_post`
//! the per-milestone sidebar threads, and `should_announce` the tenant's
//! announcements channel. `is_bot_actor` is the actor deny-list the posting
//! decisions consult. None of these performs I/O.

use vstd::prelude::*;

use crate::events::{ParsedEvent, has_label};
use crate::strutil::{contains_ci, contains_ci_spec, str_eq};

verus! {

/// The actor deny-list: a login naming a known automation bot,
/// matched case-insensitively as a substring.
pub open spec fn spec_is_bot_actor(login: Seq<char>) -> bool {
    ||| contains_ci_spec(login, "dependabot"@)
    ||| contains_ci_spec(login, "renovate"@)
    ||| contains_ci_spec(login, "github-actions"@)
}

/// Events that belong in the project's activity thread: completed workflow
/// runs that succeeded or failed, and every pull-request, issue and release
/// event.
pub open spec fn spec_should_log(ev: ParsedEvent) -> bool {
    match ev {
        ParsedEvent::WorkflowRun(e) => {
            &&& e.action@ == "completed"@
            &&& e.workflow_run.conclusion matches Some(c) && (c@ == "success"@ || c@
                == "failure"@)
        },
        ParsedEvent::PullRequest(_) => true,
        ParsedEvent::Issue(_) => true,
        ParsedEvent::Release(_) => true,
        ParsedEvent::Unknown => false,
    }
}

/// Events that earn a sidebar-thread post: loggable workflow runs on a main
/// branch; human-authored pull requests opened, merged or labeled; issues
/// opened or labeled; published releases.
pub open spec fn spec_should_post(ev: ParsedEvent) -> bool {
    match ev {
        ParsedEvent::WorkflowRun(e) => {
            &&& spec_should_log(ev)
            &&& e.workflow_run.head_branch matches Some(b) && (b@ == "main"@ || b@ == "master"@)
        },
        ParsedEvent::PullRequest(e) => {
            &&& !spec_is_bot_actor(e.sender.login@)
            &&& {
                ||| e.action@ == "opened"@
                ||| (e.action@ == "closed"@ && e.pull_request.merged == Some(true))
                ||| e.action@ == "labeled"@
            }
        },
        ParsedEvent::Issue(e) => e.action@ == "opened"@ || e.action@ == "labeled"@,
        ParsedEvent::Release(e) => e.action@ == "published"@,
        ParsedEvent::Unknown => false,
    }
}

/// Events that go to the tenant's announcements channel: every release, and
/// pull requests or issues carrying a label named exactly `bounty`.
pub open spec fn spec_should_announce(ev: ParsedEvent) -> bool {
    match ev {
        ParsedEvent::Release(_) => true,
        ParsedEvent::Issue(e) => has_label(e.issue.labels@, "bounty"@),
        ParsedEvent::PullRequest(e) => has_label(e.pull_request.labels@, "bounty"@),
        _ => false,
    }
}

pub fn is_bot_actor(login: &str) -> (r: bool)
    ensures
        r == spec_is_bot_actor(login@),
{
    contains_ci(login, "dependabot") || contains_ci(login, "renovate") || contains_ci(
        login,
        "github-actions",
    )
}

pub fn should_log(event: &ParsedEvent) -> (r: bool)
    ensures
        r == spec_should_log(*event),
{
    match event {
        ParsedEvent::WorkflowRun(e) => {
            if !str_eq(e.action.as_str(), "completed") {
                return false;
            }
            match &e.workflow_run.conclusion {
                Some(c) => str_eq(c.as_str(), "success") || str_eq(c.as_str(), "failure"),
                None => false,
            }
        }
        ParsedEvent::PullRequest(_) => true,
        ParsedEvent::Issue(_) => true,
        ParsedEvent::Release(_) => true,
        ParsedEvent::Unknown => false,
    }
}

pub fn should_post(event: &ParsedEvent) -> (r: bool)
    ensures
        r == spec_should_post(*event),
{
    match event {
        ParsedEvent::WorkflowRun(e) => {
            if !should_log(event) {
                return false;
            }
            match &e.workflow_run.head_branch {
                Some(b) => str_eq(b.as_str(), "main") || str_eq(b.as_str(), "master"),
                None => false,
            }
        }
        ParsedEvent::PullRequest(e) => {
            if is_bot_actor(e.sender.login.as_str()) {
                return false;
            }
            let merged = match e.pull_request.merged {
                Some(m) => m,
                None => false,
            };
            str_eq(e.action.as_str(), "opened") || (str_eq(e.action.as_str(), "closed") && merged)
                || str_eq(e.action.as_str(), "labeled")
        }
        ParsedEvent::Issue(e) => {
            str_eq(e.action.as_str(), "opened") || str_eq(e.action.as_str(), "labeled")
        }
        ParsedEvent::Release(e) => str_eq(e.action.as_str(), "published"),
        ParsedEvent::Unknown => false,
    }
}

pub fn should_announce(event: &ParsedEvent) -> (r: bool)
    ensures
        r == spec_should_announce(*event),
{
    match event {
        ParsedEvent::Release(_) => true,
        ParsedEvent::Issue(e) => crate::events::labels_carry(&e.issue.labels, "bounty"),
        ParsedEvent::PullRequest(e) => crate::events::labels_carry(
            &e.pull_request.labels,
            "bounty",
        ),
        _ => false,
    }
}

/// A cancelled or skipped workflow run is neither logged to the activity
/// thread nor posted to a sidebar thread.
pub proof fn lemma_cancelled_skipped_suppressed(ev: ParsedEvent)
    requires
        ev matches ParsedEvent::WorkflowRun(e) && (e.action@ == "cancelled"@ || e.action@
            == "skipped"@),
    ensures
        !spec_should_log(ev),
        !spec_should_post(ev),
{
    reveal_strlit("cancelled");
    reveal_strlit("skipped");
    reveal_strlit("completed");
    assert(("cancelled"@).len() == 9);
    assert(("skipped"@).len() == 7);
    assert(("completed"@).len() == 9);
    assert(("cancelled"@)[1] != ("completed"@)[1]);
}

/// Release events are announced whatever labels they carry; pull-request and
/// issue events are announced exactly when a label named `bounty` is present.
pub proof fn lemma_bounty_announce(ev: ParsedEvent)
    ensures
        ev is Release ==> spec_should_announce(ev),
        ev matches ParsedEvent::Issue(e) ==> (spec_should_announce(ev) <==> has_label(
            e.issue.labels@,
            "bounty"@,
        )),
        ev matches ParsedEvent::PullRequest(e) ==> (spec_should_announce(ev) <==> has_label(
            e.pull_request.labels@,
            "bounty"@,
        )),
{
}

/// A login that names one of the known bots (case-insensitively, as a
/// substring) is a bot actor, and a pull-request event from such an actor is
/// never posted, whatever its action.
pub proof fn lemma_bot_actor_never_posts(ev: ParsedEvent)
    requires
        ev matches ParsedEvent::PullRequest(e) && (contains_ci_spec(
            e.sender.login@,
            "dependabot"@,
        ) || contains_ci_spec(e.sender.login@, "renovate"@) || contains_ci_spec(
            e.sender.login@,
            "github-actions"@,
        )),
    ensures
        spec_is_bot_actor(ev.spec_actor()),
        !spec_should_post(ev),
{
}

} // verus!
