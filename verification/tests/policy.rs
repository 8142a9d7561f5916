use bytehub::events::{
    Issue, IssueEvent, Label, ParsedEvent, PullRequest, PullRequestEvent, Release, ReleaseEvent,
    Repository, User, WorkflowRun, WorkflowRunEvent,
};
use bytehub::policy::{is_bot_actor, should_announce, should_log, should_post};

fn test_repo() -> Repository {
    Repository { full_name: "test/repo".into(), name: "repo".into() }
}

fn workflow_event(action: &str, conclusion: Option<&str>, branch: Option<&str>) -> ParsedEvent {
    ParsedEvent::WorkflowRun(WorkflowRunEvent {
        action: action.into(),
        workflow_run: WorkflowRun {
            id: 1,
            name: Some("CI".into()),
            conclusion: conclusion.map(|c| c.into()),
            html_url: "http://github.com".into(),
            head_branch: branch.map(|b| b.into()),
        },
        repository: test_repo(),
        sender: User { login: "test-user".into() },
    })
}

#[test]
fn test_workflow_success_triage() {
    let event = workflow_event("completed", Some("success"), Some("main"));
    assert!(should_log(&event));
    assert!(should_post(&event));
}

#[test]
fn test_workflow_failure_triage() {
    let event = workflow_event("completed", Some("failure"), Some("main"));
    assert!(should_log(&event));
    assert!(should_post(&event));
}

#[test]
fn test_workflow_in_progress_ignored() {
    let event = workflow_event("requested", None, Some("main"));
    assert!(!should_log(&event));
    assert!(!should_post(&event));
}

#[test]
fn test_workflow_feature_branch_ignored() {
    let event = workflow_event("completed", Some("success"), Some("feature/cool-stuff"));
    assert!(should_log(&event));
    assert!(!should_post(&event));
}

#[test]
fn test_workflow_cancelled_and_skipped_suppressed() {
    for action in ["cancelled", "skipped"] {
        let event = workflow_event(action, Some("success"), Some("main"));
        assert!(!should_log(&event));
        assert!(!should_post(&event));
    }
}

fn issue_event(action: &str, title: &str, labels: Vec<&str>) -> ParsedEvent {
    ParsedEvent::Issue(IssueEvent {
        action: action.into(),
        issue: Issue {
            number: 1,
            title: title.into(),
            html_url: "http://github.com".into(),
            labels: labels.into_iter().map(|l| Label { name: l.into() }).collect(),
        },
        repository: test_repo(),
        sender: User { login: "test-user".into() },
    })
}

#[test]
fn test_issue_opened_triage() {
    let event = issue_event("opened", "Test Issue", vec![]);
    assert!(should_log(&event));
    assert!(should_post(&event));
    assert!(!should_announce(&event));
}

#[test]
fn test_issue_with_bounty_announcement() {
    let event = issue_event("opened", "Bounty Issue", vec!["bounty"]);
    assert!(should_announce(&event));
}

#[test]
fn test_issue_labeled_triage() {
    let event = issue_event("labeled", "Labeled Issue", vec!["bug"]);
    assert!(should_log(&event));
    assert!(should_post(&event));
}

fn pr_event(action: &str, title: &str, merged: Option<bool>, labels: Vec<&str>, login: &str) -> ParsedEvent {
    ParsedEvent::PullRequest(PullRequestEvent {
        action: action.into(),
        pull_request: PullRequest {
            number: 1,
            title: title.into(),
            html_url: "http://github.com".into(),
            merged,
            labels: labels.into_iter().map(|l| Label { name: l.into() }).collect(),
        },
        repository: test_repo(),
        sender: User { login: login.into() },
    })
}

#[test]
fn test_pr_opened_triage() {
    let event = pr_event("opened", "Test PR", Some(false), vec![], "test-user");
    assert!(should_log(&event));
    assert!(should_post(&event));
    assert!(!should_announce(&event));
}

#[test]
fn test_pr_merged_triage() {
    let event = pr_event("closed", "Test PR", Some(true), vec![], "test-user");
    assert!(should_log(&event));
    assert!(should_post(&event));
}

#[test]
fn test_pr_with_bounty_announcement() {
    let event = pr_event("opened", "Bounty PR", Some(false), vec!["bounty"], "test-user");
    assert!(should_announce(&event));
}

#[test]
fn test_bot_actor_exclusion() {
    let event = pr_event("opened", "Bot PR", Some(false), vec![], "dependabot[bot]");
    assert!(is_bot_actor("dependabot[bot]"));
    assert!(!should_post(&event));
}

#[test]
fn test_bot_actor_deny_list_case_insensitive() {
    assert!(is_bot_actor("Renovate-Bot"));
    assert!(is_bot_actor("GITHUB-ACTIONS[bot]"));
    assert!(is_bot_actor("my-dependabot-fork"));
    assert!(!is_bot_actor("ordinary-user"));
}

#[test]
fn test_release_published_triage() {
    let event = ParsedEvent::Release(ReleaseEvent {
        action: "published".into(),
        release: Release {
            tag_name: "v1.0.0".into(),
            name: Some("Initial Release".into()),
            body: Some("Description".into()),
            html_url: "http://github.com".into(),
        },
        repository: test_repo(),
        sender: User { login: "test-user".into() },
    });
    assert!(should_log(&event));
    assert!(should_post(&event));
    assert!(should_announce(&event));
}

#[test]
fn test_event_accessors() {
    let event = pr_event("opened", "Test PR", Some(true), vec!["bounty", "bug"], "someone");
    assert_eq!(event.event_key().unwrap(), "pull_request.opened");
    assert_eq!(event.repo_full_name().unwrap(), "test/repo");
    assert_eq!(event.actor().unwrap(), "someone");
    assert_eq!(event.labels(), vec!["bounty".to_string(), "bug".to_string()]);
    assert!(event.is_merged());
    assert!(!ParsedEvent::Unknown.is_merged());
    assert!(ParsedEvent::Unknown.event_key().is_none());
}
