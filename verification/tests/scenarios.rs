use bytehub::commands::{do_approve, do_setup_server, CommandOption, InteractionData,
    REQUIRED_PERMISSIONS};
use bytehub::dispatch::dispatch;
use bytehub::events::{ParsedEvent, Repository, User, WorkflowRun, WorkflowRunEvent};
use bytehub::guild::Guild;
use bytehub::store::{get_config, get_project, submit_project, Store};

fn approve_data(repo: &str) -> InteractionData {
    InteractionData {
        name: "approve".into(),
        options: Some(vec![CommandOption { name: "repo".into(), value: repo.into() }]),
    }
}

fn workflow_run(branch: &str) -> ParsedEvent {
    ParsedEvent::WorkflowRun(WorkflowRunEvent {
        action: "completed".into(),
        workflow_run: WorkflowRun {
            id: 1,
            name: Some("CI".into()),
            conclusion: Some("success".into()),
            html_url: "http://github.com".into(),
            head_branch: Some(branch.into()),
        },
        repository: Repository { full_name: "octo/widgets".into(), name: "widgets".into() },
        sender: User { login: "test-user".into() },
    })
}

fn approved_setup() -> (Guild, Store) {
    let mut g = Guild::new(42, REQUIRED_PERMISSIONS, 100);
    let mut db = Store::new();
    let guild_id = Some("42".to_string());
    submit_project(&mut db, "octo/widgets").unwrap();
    do_setup_server(&mut g, &mut db, &guild_id).unwrap();
    do_approve(&mut g, &mut db, &approve_data("octo/widgets"), &guild_id).unwrap();
    (g, db)
}

#[test]
fn test_main_branch_run_posts_activity_and_sidebar() {
    // Submitted, then approved in tenant 42: the project is approved with a
    // forum and the tenant recorded; a successful main-branch run then lands
    // exactly one activity post, one sidebar post, and no announcement.
    let (mut g, mut db) = approved_setup();

    let project = get_project(&db, "octo/widgets").unwrap();
    assert!(project.is_approved);
    assert!(!project.forum_channel_id.is_empty());
    assert_eq!(project.guild_id, "42");

    dispatch(&mut g, &mut db, &workflow_run("main")).unwrap();

    let project = get_project(&db, "octo/widgets").unwrap();
    let thread_id: u64 = project.thread_id.unwrap().parse().unwrap();
    assert_eq!(g.count_embeds(thread_id), 1);

    let forum_id: u64 = project.forum_channel_id.parse().unwrap();
    let sidebar = g.find_active_thread_by_name(forum_id, "✅ CI Passed").unwrap();
    assert_eq!(g.count_embeds(sidebar), 1);

    let config = get_config(&db, "42").unwrap();
    let announcements: u64 = config.announcements_id.parse().unwrap();
    assert_eq!(g.count_embeds(announcements), 0);
}

#[test]
fn test_feature_branch_run_posts_activity_only() {
    // The same repository on a feature branch logs exactly one activity post
    // and opens no sidebar thread.
    let (mut g, mut db) = approved_setup();

    dispatch(&mut g, &mut db, &workflow_run("feature/x")).unwrap();

    let project = get_project(&db, "octo/widgets").unwrap();
    let thread_id: u64 = project.thread_id.unwrap().parse().unwrap();
    assert_eq!(g.count_embeds(thread_id), 1);

    let forum_id: u64 = project.forum_channel_id.parse().unwrap();
    assert!(g.find_active_thread_by_name(forum_id, "✅ CI Passed").is_none());
    assert!(g.find_active_thread_by_name(forum_id, "❌ CI Failed").is_none());
}

#[test]
fn test_unlisted_repository_is_ignored() {
    let mut g = Guild::new(42, REQUIRED_PERMISSIONS, 100);
    let mut db = Store::new();
    let channels_before = g.channels.len();
    dispatch(&mut g, &mut db, &workflow_run("main")).unwrap();
    assert_eq!(g.channels.len(), channels_before);
    assert_eq!(g.posts.len(), 0);
}

#[test]
fn test_mixed_case_repository_routes_to_same_project() {
    // The store compares repository keys case-insensitively, so an event
    // with different casing still reaches the approved project.
    let (mut g, mut db) = approved_setup();
    let event = ParsedEvent::WorkflowRun(WorkflowRunEvent {
        action: "completed".into(),
        workflow_run: WorkflowRun {
            id: 2,
            name: Some("CI".into()),
            conclusion: Some("failure".into()),
            html_url: "http://github.com".into(),
            head_branch: Some("main".into()),
        },
        repository: Repository { full_name: "Octo/Widgets".into(), name: "Widgets".into() },
        sender: User { login: "test-user".into() },
    });
    dispatch(&mut g, &mut db, &event).unwrap();
    let project = get_project(&db, "octo/widgets").unwrap();
    let thread_id: u64 = project.thread_id.unwrap().parse().unwrap();
    assert_eq!(g.count_embeds(thread_id), 1);
}

#[test]
fn test_bot_event_skips_activity_thread() {
    let (mut g, mut db) = approved_setup();
    let event = ParsedEvent::WorkflowRun(WorkflowRunEvent {
        action: "completed".into(),
        workflow_run: WorkflowRun {
            id: 3,
            name: Some("CI".into()),
            conclusion: Some("success".into()),
            html_url: "http://github.com".into(),
            head_branch: Some("main".into()),
        },
        repository: Repository { full_name: "octo/widgets".into(), name: "widgets".into() },
        sender: User { login: "dependabot[bot]".into() },
    });
    dispatch(&mut g, &mut db, &event).unwrap();
    // No activity thread was created for the bot's event, but the sidebar
    // milestone still exists (posting there does not depend on the actor).
    let project = get_project(&db, "octo/widgets").unwrap();
    assert!(project.thread_id.is_none());
    let forum_id: u64 = project.forum_channel_id.parse().unwrap();
    assert!(g.find_active_thread_by_name(forum_id, "✅ CI Passed").is_some());
}
