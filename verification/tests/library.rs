use bytehub::error::Error;
use bytehub::events::{
    Issue, IssueEvent, Label, PullRequest, PullRequestEvent, Release, ReleaseEvent, Repository,
    User, WorkflowRun, WorkflowRunEvent,
};
use bytehub::format::{format_issue, format_pr_merged, format_release, format_workflow};
use bytehub::ids::{parse_channel_id, render_id};
use bytehub::rules::{evaluate_rules, Rule, RuleActions, RuleConditions};
use bytehub::store::{
    deny_project, get_project, parse_mutation_result, submit_project, update_forum_id,
    update_thread_id, Store,
};
use bytehub::verify::{constant_time_eq, verify_discord_signature, verify_github_signature};
use bytehub::whitelist::{add_user, is_whitelisted};

#[test]
fn test_github_signature_round_trip() {
    // A header computed with the real HMAC verifies; a tampered body fails.
    let secret = "shhh-secret";
    let payload = b"{\"action\":\"opened\"}";
    let tag = crabgraph::mac::hmac_sha256(secret.as_bytes(), payload).unwrap();
    let header = format!("sha256={}", hex::encode(tag));
    assert!(verify_github_signature(secret, payload, &header));
    assert!(!verify_github_signature(secret, b"{\"action\":\"closed\"}", &header));
    assert!(!verify_github_signature("wrong", payload, &header));
    assert!(!verify_github_signature(secret, payload, "sha256=zz"));
    assert!(!verify_github_signature(secret, payload, "deadbeef"));
}

#[test]
fn test_discord_signature_round_trip() {
    let keys = crabgraph::asym::Ed25519KeyPair::generate().unwrap();
    let pk_hex = hex::encode(keys.public_key().as_bytes());
    let timestamp = "1700000000";
    let body = b"{\"type\":1}";
    let mut message = timestamp.as_bytes().to_vec();
    message.extend_from_slice(body);
    let sig_hex = keys.sign(&message).to_hex();
    assert!(verify_discord_signature(&pk_hex, timestamp, body, &sig_hex));
    // A different timestamp, body or key fails closed.
    assert!(!verify_discord_signature(&pk_hex, "1700000001", body, &sig_hex));
    assert!(!verify_discord_signature(&pk_hex, timestamp, b"{}", &sig_hex));
    assert!(!verify_discord_signature("00", timestamp, body, &sig_hex));
    assert!(!verify_discord_signature(&pk_hex, timestamp, body, "not-hex"));
}

#[test]
fn test_constant_time_eq() {
    assert!(constant_time_eq(b"abc", b"abc"));
    assert!(!constant_time_eq(b"abc", b"abd"));
    assert!(!constant_time_eq(b"abc", b"ab"));
    assert!(constant_time_eq(b"", b""));
}

#[test]
fn test_identifier_round_trip() {
    assert_eq!(render_id(1234567890), "1234567890");
    assert_eq!(parse_channel_id("1234567890"), Some(1234567890));
    assert_eq!(parse_channel_id(&render_id(u64::MAX)), Some(u64::MAX));
    // Absent: empty, non-numeric, the reserved zero, and overflow.
    assert_eq!(parse_channel_id(""), None);
    assert_eq!(parse_channel_id("12a4"), None);
    assert_eq!(parse_channel_id("0"), None);
    assert_eq!(parse_channel_id("99999999999999999999999"), None);
}

#[test]
fn test_format_release_exact() {
    let event = ReleaseEvent {
        action: "published".into(),
        release: Release {
            tag_name: "v1.0.0".into(),
            name: Some("Initial".into()),
            body: Some("Notes".into()),
            html_url: "http://x".into(),
        },
        repository: Repository { full_name: "octo/widgets".into(), name: "widgets".into() },
        sender: User { login: "amy".into() },
    };
    let (title, body) = format_release(&event);
    assert_eq!(title, "🚀 Release v1.0.0");
    assert_eq!(body, "**octo/widgets** released `v1.0.0`\n\nNotes\n\n[View Release](http://x)");
}

#[test]
fn test_format_pr_merged_exact() {
    let event = PullRequestEvent {
        action: "closed".into(),
        pull_request: PullRequest {
            number: 7,
            title: "Add parser".into(),
            html_url: "http://x".into(),
            merged: Some(true),
            labels: vec![Label { name: "core".into() }, Label { name: "bounty".into() }],
        },
        repository: Repository { full_name: "octo/widgets".into(), name: "widgets".into() },
        sender: User { login: "amy".into() },
    };
    let (title, body) = format_pr_merged(&event);
    assert_eq!(title, "🧩 PR merged: #7 [core, bounty]");
    assert_eq!(body, "**Add parser**\n\nMerged by @amy\n\n[View PR](http://x)");
}

#[test]
fn test_format_issue_exact() {
    let event = IssueEvent {
        action: "opened".into(),
        issue: Issue {
            number: 3,
            title: "Crash".into(),
            html_url: "http://x".into(),
            labels: vec![Label { name: "bounty".into() }],
        },
        repository: Repository { full_name: "octo/widgets".into(), name: "widgets".into() },
        sender: User { login: "amy".into() },
    };
    let (title, body) = format_issue(&event);
    assert_eq!(title, "🪙 Issue #3: Crash");
    assert_eq!(body, "Opened by @amy\nLabels: bounty\n\n[View Issue](http://x)");
}

#[test]
fn test_format_workflow_exact() {
    let event = WorkflowRunEvent {
        action: "completed".into(),
        workflow_run: WorkflowRun {
            id: 1,
            name: Some("CI".into()),
            conclusion: Some("failure".into()),
            html_url: "http://x".into(),
            head_branch: Some("main".into()),
        },
        repository: Repository { full_name: "octo/widgets".into(), name: "widgets".into() },
        sender: User { login: "amy".into() },
    };
    let (title, body) = format_workflow(&event);
    assert_eq!(title, "❌ CI: CI");
    assert_eq!(body, "**octo/widgets** - failure\n\n[View Run](http://x)");
}

#[test]
fn test_store_submit_and_deny() {
    let mut db = Store::new();
    submit_project(&mut db, "Octo/Widgets").unwrap();
    // Keys are compared case-insensitively: resubmission conflicts.
    let again = submit_project(&mut db, "octo/widgets");
    assert!(matches!(again, Err(Error::ProjectAlreadyExists(_))));
    let p = get_project(&db, "OCTO/WIDGETS").unwrap();
    assert_eq!(p.github_repo, "octo/widgets");
    assert_eq!(p.name, "Widgets");
    assert!(!p.is_approved);

    deny_project(&mut db, "octo/widgets").unwrap();
    assert!(get_project(&db, "octo/widgets").is_none());
    let gone = deny_project(&mut db, "octo/widgets");
    assert!(matches!(gone, Err(Error::NotFound(_))));
}

#[test]
fn test_store_identifier_updates() {
    let mut db = Store::new();
    submit_project(&mut db, "octo/widgets").unwrap();
    update_forum_id(&mut db, "octo/widgets", "555").unwrap();
    update_thread_id(&mut db, "octo/widgets", "777").unwrap();
    let p = get_project(&db, "octo/widgets").unwrap();
    assert_eq!(p.forum_channel_id, "555");
    assert_eq!(p.thread_id.as_deref(), Some("777"));
    assert!(matches!(update_forum_id(&mut db, "none/such", "1"), Err(Error::NotFound(_))));
}

#[test]
fn test_parse_mutation_result_classification() {
    assert_eq!(parse_mutation_result(true, Some("id-1".into()), None).unwrap().as_deref(), Some("id-1"));
    let conflict = parse_mutation_result(false, None, Some("Project Already Exists".into()));
    assert!(matches!(conflict, Err(Error::ProjectAlreadyExists(_))));
    let other = parse_mutation_result(false, None, Some("bad input".into()));
    assert!(matches!(other, Err(Error::InvalidPayload(_))));
    let unknown = parse_mutation_result(false, None, None);
    match unknown {
        Err(Error::InvalidPayload(m)) => assert_eq!(m, "Unknown error"),
        _ => panic!("expected an invalid-payload rejection"),
    }
}

#[test]
fn test_rule_evaluation_first_match_wins() {
    let rules = vec![
        Rule {
            id: "high".into(),
            conditions: RuleConditions {
                event_type: Some("pull_request.opened".into()),
                labels: Some(vec!["bounty".into()]),
                actor_whitelisted: None,
                merged: None,
            },
            actions: RuleActions { post_forum: true, post_announce: true, template: None },
        },
        Rule {
            id: "low".into(),
            conditions: RuleConditions {
                event_type: Some("pull_request.opened".into()),
                labels: None,
                actor_whitelisted: None,
                merged: None,
            },
            actions: RuleActions { post_forum: true, post_announce: false, template: None },
        },
    ];
    let key = Some("pull_request.opened".to_string());
    let with_bounty = vec!["bounty".to_string(), "core".to_string()];
    let m = evaluate_rules(&rules, &key, &with_bounty, false, false).unwrap();
    assert_eq!(m.rule_id, "high");
    assert!(m.actions.post_announce);

    let without = vec!["core".to_string()];
    let m = evaluate_rules(&rules, &key, &without, false, false).unwrap();
    assert_eq!(m.rule_id, "low");
    assert!(!m.actions.post_announce);

    // No rule matches: the event is dropped.
    let other_key = Some("issues.closed".to_string());
    assert!(evaluate_rules(&rules, &other_key, &without, false, false).is_none());
}

#[test]
fn test_error_messages_and_statuses() {
    assert_eq!(Error::InvalidSignature.message(), "invalid signature");
    assert_eq!(Error::InvalidSignature.status_code(), 401);
    assert_eq!(Error::Unauthorized.status_code(), 401);
    assert_eq!(Error::InvalidPayload("x".into()).message(), "invalid payload: x");
    assert_eq!(Error::InvalidPayload("x".into()).status_code(), 400);
    assert_eq!(Error::ProjectAlreadyExists("r".into()).status_code(), 409);
    assert_eq!(Error::AlreadyApproved.message(), "project already approved");
    assert_eq!(Error::AlreadyApproved.status_code(), 409);
    assert_eq!(Error::NotFound("p".into()).message(), "not found: p");
    assert_eq!(Error::NotFound("p".into()).status_code(), 404);
    assert_eq!(Error::Database("d".into()).status_code(), 500);
    assert_eq!(Error::Discord("d".into()).message(), "discord api error: d");
    assert_eq!(Error::Internal("i".into()).message(), "internal error: i");
}

#[test]
fn test_whitelist_is_inert() {
    let mut db = Store::new();
    add_user(&mut db, "amy").unwrap();
    assert_eq!(is_whitelisted(&db, "amy").unwrap(), false);
}
