use bytehub::commands::{
    check_moderator, do_approve, do_repair, do_setup_server, plan_interaction, CommandOption,
    Interaction, InteractionData, InteractionPlan, Member, User, REQUIRED_PERMISSIONS,
};
use bytehub::rate_limit::RateLimiter;
use bytehub::error::Error;
use bytehub::guild::{ChannelKind, Guild};
use bytehub::store::{get_config, get_project, submit_project, Store};

fn approve_data(repo: &str) -> InteractionData {
    InteractionData {
        name: "approve".into(),
        options: Some(vec![CommandOption { name: "repo".into(), value: repo.into() }]),
    }
}

#[test]
fn test_setup_server_success() {
    let mut g = Guild::new(42, REQUIRED_PERMISSIONS, 100);
    let mut db = Store::new();

    let guild_id = Some("42".to_string());
    let result = do_setup_server(&mut g, &mut db, &guild_id);

    assert!(result.is_ok());
    assert!(result.unwrap().contains("Server setup complete"));

    let config = get_config(&db, "42");
    assert!(config.is_some());
    let config = config.unwrap();
    assert_eq!(config.announcements_id, "100");
}

#[test]
fn test_setup_server_permission_denied() {
    let mut g = Guild::new(42, 0, 100);
    let mut db = Store::new();

    let guild_id = Some("42".to_string());
    let result = do_setup_server(&mut g, &mut db, &guild_id);

    assert!(result.is_err());
    let err_msg = result.unwrap_err().message();
    assert!(err_msg.contains("Missing permissions"));
}

#[test]
fn test_setup_server_no_guild() {
    let mut g = Guild::new(42, REQUIRED_PERMISSIONS, 100);
    let mut db = Store::new();

    let guild_id = None;
    let result = do_setup_server(&mut g, &mut db, &guild_id);

    assert!(result.is_err());
    assert_eq!(result.unwrap_err().message(), "invalid payload: missing guild_id");
}

#[test]
fn test_setup_server_idempotent() {
    // Running setup twice with no outside change creates no duplicate
    // channels and persists an identical configuration.
    let mut g = Guild::new(42, REQUIRED_PERMISSIONS, 100);
    let mut db = Store::new();
    let guild_id = Some("42".to_string());

    let first = do_setup_server(&mut g, &mut db, &guild_id).unwrap();
    let channels_after_first = g.channels.len();
    let config_first = get_config(&db, "42").unwrap();

    let second = do_setup_server(&mut g, &mut db, &guild_id).unwrap();
    assert_eq!(g.channels.len(), channels_after_first);
    let config_second = get_config(&db, "42").unwrap();
    assert_eq!(config_second.announcements_id, config_first.announcements_id);
    assert_eq!(config_second.github_forum_id, config_first.github_forum_id);
    assert_eq!(first, second);
}

#[test]
fn test_approve_success() {
    let mut g = Guild::new(42, REQUIRED_PERMISSIONS, 100);
    let mut db = Store::new();

    let repo = "test_approve/widgets";
    submit_project(&mut db, repo).unwrap();

    let guild_id = Some("42".to_string());
    do_setup_server(&mut g, &mut db, &guild_id).unwrap();

    g.next_id = 300;
    let result = do_approve(&mut g, &mut db, &approve_data(repo), &guild_id);

    assert!(result.is_ok());
    assert!(result.unwrap().contains("approved"));

    let project = get_project(&db, repo).unwrap();
    assert!(project.is_approved);
    assert_eq!(project.forum_channel_id, "300");
}

#[test]
fn test_approve_permission_denied() {
    let mut g = Guild::new(42, 0, 100);
    let mut db = Store::new();

    let guild_id = Some("42".to_string());
    let result = do_approve(&mut g, &mut db, &approve_data("test/repo"), &guild_id);

    assert!(result.is_err());
    assert!(result.unwrap_err().message().contains("Missing permissions"));
}

#[test]
fn test_approve_project_not_found() {
    let mut g = Guild::new(42, REQUIRED_PERMISSIONS, 100);
    let mut db = Store::new();

    let guild_id = Some("42".to_string());
    do_setup_server(&mut g, &mut db, &guild_id).unwrap();

    let result = do_approve(&mut g, &mut db, &approve_data("nonexistent/repo"), &guild_id);

    assert!(result.is_err());
    let err = result.unwrap_err().message();
    assert!(err.contains("not found") || err.contains("Project not found"));
}

#[test]
fn test_approve_already_approved_kind() {
    // Re-approval is the dedicated already-approved conflict, and the
    // project's stored state is untouched by the second attempt.
    let mut g = Guild::new(42, REQUIRED_PERMISSIONS, 100);
    let mut db = Store::new();
    let guild_id = Some("42".to_string());
    let repo = "octo/tools";

    submit_project(&mut db, repo).unwrap();
    do_setup_server(&mut g, &mut db, &guild_id).unwrap();
    do_approve(&mut g, &mut db, &approve_data(repo), &guild_id).unwrap();

    let before = get_project(&db, repo).unwrap();
    let channels_before = g.channels.len();
    let result = do_approve(&mut g, &mut db, &approve_data(repo), &guild_id);

    assert!(matches!(result, Err(Error::AlreadyApproved)));
    let after = get_project(&db, repo).unwrap();
    assert_eq!(after.forum_channel_id, before.forum_channel_id);
    assert_eq!(after.guild_id, before.guild_id);
    assert!(after.is_approved);
    assert_eq!(g.channels.len(), channels_before);
}

#[test]
fn test_repair_reports_nothing_when_in_sync() {
    let mut g = Guild::new(42, REQUIRED_PERMISSIONS, 100);
    let mut db = Store::new();
    let guild_id = Some("42".to_string());

    do_setup_server(&mut g, &mut db, &guild_id).unwrap();
    let result = do_repair(&mut g, &mut db, &guild_id).unwrap();
    assert_eq!(result, "✅ All channels are in sync. Nothing to repair.");
}

#[test]
fn test_repair_convergence() {
    // A drifted forum identifier is recreated and persisted by one repair,
    // and a second repair finds nothing left to do.
    let mut g = Guild::new(42, REQUIRED_PERMISSIONS, 100);
    let mut db = Store::new();
    let guild_id = Some("42".to_string());

    let repo = "octo/widgets";
    submit_project(&mut db, repo).unwrap();
    do_setup_server(&mut g, &mut db, &guild_id).unwrap();
    do_approve(&mut g, &mut db, &approve_data(repo), &guild_id).unwrap();

    // Delete the project's forum out-of-band: the stored identifier drifts.
    let forum_id: u64 = get_project(&db, repo).unwrap().forum_channel_id.parse().unwrap();
    g.channels.retain(|c| c.id != forum_id);

    let first = do_repair(&mut g, &mut db, &guild_id).unwrap();
    assert!(first.contains("Repairs completed"));
    assert!(first.contains(repo));
    let repaired: u64 = get_project(&db, repo).unwrap().forum_channel_id.parse().unwrap();
    assert!(g.channels.iter().any(|c| c.id == repaired));

    let second = do_repair(&mut g, &mut db, &guild_id).unwrap();
    assert_eq!(second, "✅ All channels are in sync. Nothing to repair.");
}

#[test]
fn test_repair_requires_setup() {
    let mut g = Guild::new(42, REQUIRED_PERMISSIONS, 100);
    let mut db = Store::new();
    let result = do_repair(&mut g, &mut db, &Some("42".to_string()));
    assert!(matches!(result, Err(Error::NotFound(_))));
    assert_eq!(result.unwrap_err().message(), "not found: Server not set up. Run /setup-server first.");
}

#[test]
fn test_setup_reuses_existing_channels() {
    let mut g = Guild::new(42, REQUIRED_PERMISSIONS, 500);
    // Pre-existing channels whose names already match.
    let ann = g.create_channel(ChannelKind::Text, "team-announcements", None);
    let cat = g.create_channel(ChannelKind::Category, "GitHub", None);
    let mut db = Store::new();

    do_setup_server(&mut g, &mut db, &Some("42".to_string())).unwrap();
    assert_eq!(g.channels.len(), 2);
    let config = get_config(&db, "42").unwrap();
    assert_eq!(config.announcements_id, ann.to_string());
    assert_eq!(config.github_forum_id, cat.to_string());
}

fn moderator() -> Member {
    Member {
        user: User { id: "1".into() },
        roles: vec![],
        permissions: Some("8".into()),
    }
}

fn interaction(kind: u8, name: &str, guild: Option<&str>, member: Option<Member>) -> Interaction {
    Interaction {
        kind,
        data: Some(InteractionData { name: name.into(), options: None }),
        member,
        guild_id: guild.map(|s| s.to_string()),
        token: "token".into(),
        id: "1".into(),
    }
}

#[test]
fn test_check_moderator_bits() {
    assert!(check_moderator(Some(&moderator())).is_ok());
    let manage_guild = Member {
        user: User { id: "2".into() },
        roles: vec![],
        permissions: Some("32".into()),
    };
    assert!(check_moderator(Some(&manage_guild)).is_ok());
    let plain = Member {
        user: User { id: "3".into() },
        roles: vec![],
        permissions: Some("1".into()),
    };
    assert!(matches!(check_moderator(Some(&plain)), Err(Error::Unauthorized)));
    assert!(matches!(check_moderator(None), Err(Error::Unauthorized)));
    let garbled = Member {
        user: User { id: "4".into() },
        roles: vec![],
        permissions: Some("not-a-number".into()),
    };
    assert!(matches!(check_moderator(Some(&garbled)), Err(Error::Unauthorized)));
}

#[test]
fn test_plan_interaction_triage() {
    let mut limiter = RateLimiter::new(60, 2);

    // A ping is answered immediately.
    let ping = interaction(1, "ignored", None, None);
    assert!(matches!(plan_interaction(&ping, &mut limiter, 0).unwrap(), InteractionPlan::Pong));

    // An expensive command without a guild is turned away politely.
    let dm = interaction(2, "setup-server", None, Some(moderator()));
    match plan_interaction(&dm, &mut limiter, 0).unwrap() {
        InteractionPlan::Reply(m) => assert!(m.contains("can only be used in a server")),
        _ => panic!("expected an immediate reply"),
    }

    // A moderator within the rate limit gets the deferred acknowledgement.
    let ok = interaction(2, "repair", Some("42"), Some(moderator()));
    match plan_interaction(&ok, &mut limiter, 100).unwrap() {
        InteractionPlan::Defer(name) => assert_eq!(name, "repair"),
        _ => panic!("expected a deferred command"),
    }

    // A non-moderator is refused with the unauthorized kind.
    let not_mod = interaction(2, "repair", Some("42"), None);
    assert!(matches!(plan_interaction(&not_mod, &mut limiter, 100), Err(Error::Unauthorized)));

    // Past the limit the caller is told how long to wait.
    let again = interaction(2, "repair", Some("42"), Some(moderator()));
    match plan_interaction(&again, &mut limiter, 100).unwrap() {
        InteractionPlan::Reply(m) => assert!(m.contains("Rate limited")),
        _ => panic!("expected a rate-limit reply"),
    }

    // Ordinary commands run synchronously.
    let sync = interaction(2, "submit-project", Some("42"), None);
    match plan_interaction(&sync, &mut limiter, 100).unwrap() {
        InteractionPlan::RunCommand(name) => assert_eq!(name, "submit-project"),
        _ => panic!("expected a synchronous command"),
    }
}
