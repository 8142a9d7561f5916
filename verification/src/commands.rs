//! The guild-scoped administrative commands: setup, approve, repair, and the
//! lighter submit/deny/whitelist/list handlers, plus the triage that routes
//! an inbound interaction to them.
//!
//! The expensive three are rate-limited per tenant and gated on a moderator
//! permission bit, and each is written to converge: running it again against
//! unchanged external state changes nothing.

use vstd::prelude::*;

use crate::error::Error;
use crate::find::{extends, find_first, lemma_find_first_props, lemma_find_first_push};
use crate::guild::{chan_containing, chan_named, chan_with_id, ChannelKind, Guild};
use crate::ids::{is_valid_id_str, lemma_render_parse, parse_channel_id, render_id};
use crate::store::{get_config, save_config, Store};
use crate::strutil::{dec_str, dec_val, lower_seq, parse_u64, short_name_spec, str_eq, u64_to_dec};

verus! {

/// The permission bits the bot needs before it will touch a tenant's
/// channels: manage channels and threads, send messages, embed links, read
/// history.
pub const REQUIRED_PERMISSIONS: u64 = 326417599504;

/// A member as the interaction payload carries it.
pub struct Member {
    pub user: User,
    pub roles: Vec<String>,
    pub permissions: Option<String>,
}

pub struct User {
    pub id: String,
}

/// One option of a command invocation.
pub struct CommandOption {
    pub name: String,
    pub value: String,
}

/// A command invocation's name and options.
pub struct InteractionData {
    pub name: String,
    pub options: Option<Vec<CommandOption>>,
}

/// An inbound interaction, already authenticated and bound.
pub struct Interaction {
    pub kind: u8,
    pub data: Option<InteractionData>,
    pub member: Option<Member>,
    pub guild_id: Option<String>,
    pub token: String,
    pub id: String,
}

/// What the transport answers an interaction with.
pub struct InteractionResponse {
    pub kind: u8,
    pub data: Option<ResponseData>,
}

pub struct ResponseData {
    pub content: String,
    pub flags: Option<u32>,
}

/// The permission bitmask a member's payload declares; malformed or missing
/// bitmasks grant nothing.
pub open spec fn member_perms(m: Member) -> u64 {
    match m.permissions {
        Some(p) => if p@.len() > 0 && crate::strutil::all_digits(p@) && dec_val(p@) <= u64::MAX {
            dec_val(p@) as u64
        } else {
            0
        },
        None => 0,
    }
}

/// A moderator holds the administrator or manage-guild bit.
pub open spec fn spec_is_moderator(m: Member) -> bool {
    member_perms(m) & 0x8 != 0 || member_perms(m) & 0x20 != 0
}

/// Accept only members holding an administrator-equivalent permission bit.
pub fn check_moderator(member: Option<&Member>) -> (r: Result<(), Error>)
    ensures
        r is Ok <==> (member matches Some(m) && spec_is_moderator(*m)),
        r matches Err(e) ==> e matches Error::Unauthorized,
{
    let m = match member {
        Some(m) => m,
        None => {
            return Err(Error::Unauthorized);
        }
    };
    let permissions: u64 = match &m.permissions {
        Some(p) => match parse_u64(p.as_str()) {
            Some(v) => v,
            None => 0,
        },
        None => 0,
    };
    if permissions & 0x8 != 0 || permissions & 0x20 != 0 {
        Ok(())
    } else {
        Err(Error::Unauthorized)
    }
}

/// The ephemeral line reported when the bot's own permissions fall short.
pub open spec fn spec_missing_perms_msg(perms: u64) -> Seq<char> {
    "Missing permissions: `"@ + dec_str((REQUIRED_PERMISSIONS & !perms) as int)
        + "`. Please update my role or re-invite me."@
}

fn missing_perms_msg(perms: u64) -> (r: String)
    ensures
        r@ == spec_missing_perms_msg(perms),
{
    let missing: u64 = REQUIRED_PERMISSIONS & !perms;
    let mut m = "Missing permissions: `".to_owned();
    m.append(u64_to_dec(missing).as_str());
    m.append("`. Please update my role or re-invite me.");
    m
}

/// The confirmation the setup command reports, naming both channels.
pub open spec fn spec_setup_msg(ann: u64, cat: u64) -> Seq<char> {
    "✅ **Server setup complete!**\n\n**Channels:**\n• <#"@ + dec_str(ann as int)
        + "> - Announcements\n• <#"@ + dec_str(cat as int) + "> - GitHub (Category)"@
}

/// Both state machines' view of one setup invocation: every rejection with
/// its exact kind and message, and on success exactly which channels were
/// reused or created and what the tenant's configuration now says.
pub open spec fn setup_post(
    pre_g: Guild,
    pre_db: Store,
    post_g: Guild,
    post_db: Store,
    guild_id: Option<String>,
    r: Result<String, Error>,
) -> bool {
    &&& (guild_id is None ==> (r matches Err(Error::InvalidPayload(m)) && m@ == "missing guild_id"@
        && post_g == pre_g && post_db == pre_db))
    &&& (guild_id matches Some(s) && !is_valid_id_str(s@) ==> (r matches Err(
        Error::InvalidPayload(m),
    ) && m@ == "invalid guild_id"@ && post_g == pre_g && post_db == pre_db))
    &&& (guild_id matches Some(s) && is_valid_id_str(s@) && pre_g.self_permissions
        & REQUIRED_PERMISSIONS != REQUIRED_PERMISSIONS ==> (r matches Err(Error::Discord(m)) && m@
        == spec_missing_perms_msg(pre_g.self_permissions) && post_g == pre_g && post_db == pre_db))
    &&& (guild_id matches Some(s) ==> ((is_valid_id_str(s@) && pre_g.self_permissions
        & REQUIRED_PERMISSIONS == REQUIRED_PERMISSIONS) ==> setup_ok_post(
        pre_g,
        pre_db,
        post_g,
        post_db,
        s@,
        r,
    )))
}

/// The success half of `setup_post`.
pub open spec fn setup_ok_post(
    pre_g: Guild,
    pre_db: Store,
    post_g: Guild,
    post_db: Store,
    gid: Seq<char>,
    r: Result<String, Error>,
) -> bool {
    let cs = pre_g.channels@;
    let fa = find_first(cs, chan_containing("announcements"@));
    let fc = find_first(cs, chan_named("GitHub"@));
    let ann: u64 = if fa >= 0 {
        cs[fa].id
    } else {
        pre_g.next_id
    };
    let cat: u64 = if fc >= 0 {
        cs[fc].id
    } else if fa >= 0 {
        pre_g.next_id
    } else {
        (pre_g.next_id + 1) as u64
    };
    &&& (r matches Ok(m) && m@ == spec_setup_msg(ann, cat))
    &&& post_db.projects@ == pre_db.projects@
    &&& post_db.has_config(gid)
    &&& post_db.config_at(gid).guild_id@ == gid
    &&& post_db.config_at(gid).announcements_id@ == dec_str(ann as int)
    &&& post_db.config_at(gid).github_forum_id@ == dec_str(cat as int)
    &&& forall|g2: Seq<char>|
        g2 != gid ==> #[trigger] post_db.has_config(g2) == pre_db.has_config(g2) && (
        pre_db.has_config(g2) ==> post_db.config_at(g2) == pre_db.config_at(g2))
    &&& post_g.threads@ == pre_g.threads@
    &&& post_g.posts@ == pre_g.posts@
    &&& post_g.id == pre_g.id
    &&& post_g.self_permissions == pre_g.self_permissions
    &&& (if fa >= 0 && fc >= 0 {
        post_g.channels@ == cs && post_g.next_id == pre_g.next_id
    } else {
        &&& extends(cs, post_g.channels@)
        &&& post_g.channels@.len() == cs.len() + (if fa < 0 {
            1int
        } else {
            0int
        }) + (if fc < 0 {
            1int
        } else {
            0int
        })
        &&& post_g.next_id == pre_g.next_id + (if fa < 0 {
            1int
        } else {
            0int
        }) + (if fc < 0 {
            1int
        } else {
            0int
        })
        &&& (fa < 0 ==> {
            &&& post_g.channels@[cs.len() as int].id == ann
            &&& post_g.channels@[cs.len() as int].name@ == "announcements"@
            &&& post_g.channels@[cs.len() as int].kind == ChannelKind::Text
        })
        &&& (fc < 0 ==> {
            let at = cs.len() + (if fa < 0 {
                1int
            } else {
                0int
            });
            &&& post_g.channels@[at].id == cat
            &&& post_g.channels@[at].name@ == "GitHub"@
            &&& post_g.channels@[at].kind == ChannelKind::Category
        })
    })
}

/// Set a tenant up: find or create the announcements channel (substring
/// match) and the shared project category (exact match), then persist the
/// configuration. Idempotent: a second run reuses both channels and writes
/// the same configuration.
#[verifier::spinoff_prover]
#[verifier::rlimit(100)]
pub fn do_setup_server(g: &mut Guild, db: &mut Store, guild_id: &Option<String>) -> (r: Result<
    String,
    Error,
>)
    requires
        old(g).wf(),
        old(db).wf(),
        old(g).next_id < u64::MAX - 2,
    ensures
        final(g).wf(),
        final(db).wf(),
        setup_post(*old(g), *old(db), *final(g), *final(db), *guild_id, r),
{
    proof {
        reveal_strlit("announcements");
        reveal_strlit("GitHub");
    }
    let gid_str = match guild_id {
        Some(s) => s,
        None => {
            return Err(Error::InvalidPayload("missing guild_id".to_owned()));
        }
    };
    match parse_channel_id(gid_str.as_str()) {
        Some(_) => (),
        None => {
            return Err(Error::InvalidPayload("invalid guild_id".to_owned()));
        }
    }
    if g.self_permissions & REQUIRED_PERMISSIONS != REQUIRED_PERMISSIONS {
        return Err(Error::Discord(missing_perms_msg(g.self_permissions)));
    }
    let announcements_id = match g.find_channel_containing("announcements") {
        Some(id) => id,
        None => g.create_channel(ChannelKind::Text, "announcements", None),
    };
    proof {
        lemma_find_first_props(old(g).channels@, chan_containing("announcements"@));
        lemma_find_first_props(old(g).channels@, chan_named("GitHub"@));
        assert(("announcements"@).len() == 13);
        assert(("GitHub"@).len() == 6);
        if find_first(old(g).channels@, chan_containing("announcements"@)) < 0 {
            assert(g.channels@ =~= old(g).channels@.push(g.channels@.last()));
            lemma_find_first_push(
                old(g).channels@,
                chan_named("GitHub"@),
                g.channels@.last(),
            );
            assert(!chan_named("GitHub"@)(g.channels@.last()));
        }
    }
    let category_id = match g.find_channel_by_name("GitHub") {
        Some(id) => id,
        None => g.create_channel(ChannelKind::Category, "GitHub", None),
    };
    let ann_rendered = render_id(announcements_id);
    let cat_rendered = render_id(category_id);
    save_config(db, gid_str.as_str(), ann_rendered.as_str(), cat_rendered.as_str());
    let mut msg = "✅ **Server setup complete!**\n\n**Channels:**\n• <#".to_owned();
    msg.append(u64_to_dec(announcements_id).as_str());
    msg.append("> - Announcements\n• <#");
    msg.append(u64_to_dec(category_id).as_str());
    msg.append("> - GitHub (Category)");
    let r: Result<String, Error> = Ok(msg);
    proof {
        if find_first(old(g).channels@, chan_containing("announcements"@)) >= 0 && find_first(
            old(g).channels@,
            chan_named("GitHub"@),
        ) >= 0 {
        } else {
            crate::find::lemma_extends_refl(old(g).channels@);
            assert(extends(old(g).channels@, g.channels@)) by {
                assert(g.channels@.subrange(0, old(g).channels@.len() as int) =~= old(
                    g,
                ).channels@);
            }
        }
        assert(setup_ok_post(*old(g), *old(db), *g, *db, gid_str@, r));
    }
    r
}

/// A name always contains itself, case-insensitively.
proof fn lemma_contains_ci_self(s: Seq<char>)
    ensures
        crate::strutil::contains_ci_spec(s, s),
{
    let l = lower_seq(s);
    assert(l.subrange(0, l.len() as int) =~= l);
    assert(crate::strutil::seq_contains_at(l, l, 0));
}

/// Setup is idempotent: run twice with no intervening external-state change,
/// the second invocation finds both channels it made or found the first
/// time, creates nothing, persists an identical configuration, and reports
/// the same confirmation.
pub proof fn lemma_setup_idempotent(
    g0: Guild,
    db0: Store,
    g1: Guild,
    db1: Store,
    g2: Guild,
    db2: Store,
    gid: String,
    r1: Result<String, Error>,
    r2: Result<String, Error>,
)
    requires
        setup_post(g0, db0, g1, db1, Some(gid), r1),
        setup_post(g1, db1, g2, db2, Some(gid), r2),
        is_valid_id_str(gid@),
        g0.self_permissions & REQUIRED_PERMISSIONS == REQUIRED_PERMISSIONS,
    ensures
        g2.channels@ == g1.channels@,
        g2.threads@ == g1.threads@,
        g2.posts@ == g1.posts@,
        g2.next_id == g1.next_id,
        db2.projects@ == db1.projects@,
        db1.has_config(gid@) && db2.has_config(gid@),
        db2.config_at(gid@).announcements_id@ == db1.config_at(gid@).announcements_id@,
        db2.config_at(gid@).github_forum_id@ == db1.config_at(gid@).github_forum_id@,
        r1 matches Ok(m1) && r2 matches Ok(m2) && m1@ == m2@,
{
    reveal_strlit("announcements");
    reveal_strlit("GitHub");
    assert(("announcements"@).len() == 13);
    assert(("GitHub"@).len() == 6);
    let cs = g0.channels@;
    let pa = chan_containing("announcements"@);
    let pc = chan_named("GitHub"@);
    let fa = find_first(cs, pa);
    let fc = find_first(cs, pc);
    lemma_find_first_props(cs, pa);
    lemma_find_first_props(cs, pc);
    assert(setup_ok_post(g0, db0, g1, db1, gid@, r1));
    assert(g1.self_permissions & REQUIRED_PERMISSIONS == REQUIRED_PERMISSIONS);
    assert(setup_ok_post(g1, db1, g2, db2, gid@, r2));
    if fa >= 0 && fc >= 0 {
        assert(g1.channels@ == cs);
    } else if fa < 0 && fc < 0 {
        let a = g1.channels@[cs.len() as int];
        let c = g1.channels@[cs.len() as int + 1];
        assert(g1.channels@ =~= cs.push(a).push(c)) by {
            assert(forall|k: int|
                0 <= k < cs.len() ==> g1.channels@[k] == cs.subrange(0, cs.len() as int)[k]
                    && #[trigger] g1.channels@[k] == g1.channels@.subrange(0, cs.len() as int)[k]);
        }
        lemma_contains_ci_self("announcements"@);
        assert(pa(a));
        lemma_find_first_push(cs, pa, a);
        lemma_find_first_push(cs.push(a), pa, c);
        assert(find_first(g1.channels@, pa) == cs.len());
        assert(!pc(a));
        lemma_find_first_push(cs, pc, a);
        assert(pc(c));
        lemma_find_first_push(cs.push(a), pc, c);
        assert(find_first(g1.channels@, pc) == cs.len() + 1);
    } else if fa >= 0 {
        let c = g1.channels@[cs.len() as int];
        assert(g1.channels@ =~= cs.push(c)) by {
            assert(forall|k: int|
                0 <= k < cs.len() ==> g1.channels@[k] == cs.subrange(0, cs.len() as int)[k]
                    && #[trigger] g1.channels@[k] == g1.channels@.subrange(0, cs.len() as int)[k]);
        }
        lemma_find_first_push(cs, pa, c);
        assert(find_first(g1.channels@, pa) == fa);
        assert(pc(c));
        lemma_find_first_push(cs, pc, c);
        assert(find_first(g1.channels@, pc) == cs.len());
    } else {
        let a = g1.channels@[cs.len() as int];
        assert(g1.channels@ =~= cs.push(a)) by {
            assert(forall|k: int|
                0 <= k < cs.len() ==> g1.channels@[k] == cs.subrange(0, cs.len() as int)[k]
                    && #[trigger] g1.channels@[k] == g1.channels@.subrange(0, cs.len() as int)[k]);
        }
        lemma_contains_ci_self("announcements"@);
        assert(pa(a));
        lemma_find_first_push(cs, pa, a);
        assert(find_first(g1.channels@, pa) == cs.len());
        assert(!pc(a));
        lemma_find_first_push(cs, pc, a);
        assert(find_first(g1.channels@, pc) == fc);
    }
    lemma_find_first_props(g1.channels@, pa);
    lemma_find_first_props(g1.channels@, pc);
}

/// The command option carrying this name.
pub open spec fn opt_named(name: Seq<char>) -> spec_fn(CommandOption) -> bool {
    |o: CommandOption| o.name@ == name
}

/// First option with the given name, as the command handlers read their
/// arguments.
fn find_option<'a>(opts: &'a Vec<CommandOption>, name: &str) -> (r: Option<&'a str>)
    ensures
        ({
            let f = find_first(opts@, opt_named(name@));
            if f >= 0 {
                r matches Some(v) && v@ == opts@[f].value@
            } else {
                r is None
            }
        }),
{
    let n = opts.len();
    let mut i: usize = 0;
    while i < n
        invariant
            i <= n,
            n == opts@.len(),
            forall|k: int| 0 <= k < i ==> !opt_named(name@)((#[trigger] opts@[k])),
        decreases n - i,
    {
        if str_eq(opts[i].name.as_str(), name) {
            proof {
                crate::find::lemma_find_first_is(opts@, opt_named(name@), i as int);
            }
            return Some(opts[i].value.as_str());
        }
        i = i + 1;
    }
    proof {
        crate::find::lemma_find_first_none(opts@, opt_named(name@));
    }
    None
}

/// The confirmation the approve command reports.
pub open spec fn spec_approve_msg(repo: Seq<char>, fid: u64, is_new: bool) -> Seq<char> {
    "✅ Project `"@ + repo + "` approved!\n\n"@ + (if is_new {
        "Created forum: <#"@
    } else {
        "Reusing existing forum: <#"@
    }) + dec_str(fid as int) + ">"@
}

/// The success half of `approve_post`: the category is synced or recreated,
/// and the project's fate depends on its stored state — a re-approval is the
/// dedicated conflict, an unknown project is not found, and a pending one
/// comes out approved with a forum identifier that resolves.
pub open spec fn approve_ok_post(
    pre_g: Guild,
    pre_db: Store,
    post_g: Guild,
    post_db: Store,
    repo: Seq<char>,
    gid: Seq<char>,
    r: Result<String, Error>,
) -> bool {
    let cs = pre_g.channels@;
    let conf = pre_db.config_at(gid);
    let fc = find_first(cs, chan_named("GitHub"@));
    let no_drift = fc >= 0 && dec_str(cs[fc].id as int) == conf.github_forum_id@;
    let rl = lower_seq(repo);
    &&& extends(cs, post_g.channels@)
    &&& post_g.threads@ == pre_g.threads@
    &&& post_g.posts@ == pre_g.posts@
    &&& post_g.id == pre_g.id
    &&& post_g.self_permissions == pre_g.self_permissions
    &&& post_db.projects@.len() == pre_db.projects@.len()
    &&& (pre_db.has_project(rl) && pre_db.project_at(rl).is_approved ==> {
        &&& r matches Err(Error::AlreadyApproved)
        &&& post_db.projects@ == pre_db.projects@
        &&& (no_drift ==> post_g == pre_g && post_db == pre_db)
    })
    &&& (!pre_db.has_project(rl) ==> (r matches Err(Error::NotFound(_)) && post_db.projects@
        == pre_db.projects@))
    &&& (pre_db.has_project(rl) && !pre_db.project_at(rl).is_approved ==> ({
        let idx = pre_db.project_idx(rl);
        let stored = pre_db.project_at(rl).forum_channel_id@;
        let reuse = crate::dispatch::resolves_in(cs, stored);
        let cat: u64 = if fc >= 0 {
            cs[fc].id
        } else {
            pre_g.next_id
        };
        let fid: u64 = if reuse {
            (dec_val(stored) as u64)
        } else if fc >= 0 {
            pre_g.next_id
        } else {
            ((pre_g.next_id + 1) as u64)
        };
        &&& (r matches Ok(m) && m@ == spec_approve_msg(repo, fid, !reuse))
        &&& post_g.channels@.len() == cs.len() + (if fc < 0 {
            1int
        } else {
            0int
        }) + (if reuse {
            0int
        } else {
            1int
        })
        &&& (!reuse ==> {
            &&& post_g.channels@.last().id == fid
            &&& post_g.channels@.last().name@ == short_name_spec(repo)
            &&& post_g.channels@.last().kind == ChannelKind::Forum
            &&& post_g.channels@.last().parent == Some(cat)
        })
        &&& forall|k: int|
            0 <= k < pre_db.projects@.len() && k != idx ==> #[trigger] post_db.projects@[k]
                == pre_db.projects@[k]
        &&& post_db.projects@[idx].github_repo == pre_db.projects@[idx].github_repo
        &&& post_db.projects@[idx].id == pre_db.projects@[idx].id
        &&& post_db.projects@[idx].name == pre_db.projects@[idx].name
        &&& post_db.projects@[idx].thread_id == pre_db.projects@[idx].thread_id
        &&& post_db.projects@[idx].is_approved == true
        &&& post_db.projects@[idx].guild_id@ == gid
        &&& post_db.projects@[idx].forum_channel_id@ == dec_str(fid as int)
        &&& crate::dispatch::resolves_in(
            post_g.channels@,
            post_db.projects@[idx].forum_channel_id@,
        )
    }))
}

/// Everything one approve invocation promises: each rejection with its exact
/// kind, and `approve_ok_post` once the request is well-formed, permitted
/// and the tenant is set up.
pub open spec fn approve_post(
    pre_g: Guild,
    pre_db: Store,
    post_g: Guild,
    post_db: Store,
    data: InteractionData,
    guild_id: Option<String>,
    r: Result<String, Error>,
) -> bool {
    &&& (data.options is None ==> (r matches Err(Error::InvalidPayload(m)) && m@
        == "missing options"@ && post_g == pre_g && post_db == pre_db))
    &&& (data.options matches Some(opts) ==> {
        let fo = find_first(opts@, opt_named("repo"@));
        &&& (fo < 0 ==> (r matches Err(Error::InvalidPayload(m)) && m@ == "missing repo"@ && post_g
            == pre_g && post_db == pre_db))
        &&& (fo >= 0 ==> {
            let repo = opts@[fo].value@;
            &&& (guild_id is None ==> (r matches Err(Error::InvalidPayload(m)) && m@
                == "missing guild_id"@ && post_g == pre_g && post_db == pre_db))
            &&& (guild_id matches Some(s) ==> {
                &&& (!is_valid_id_str(s@) ==> (r matches Err(Error::InvalidPayload(m)) && m@
                    == "invalid guild_id"@ && post_g == pre_g && post_db == pre_db))
                &&& (is_valid_id_str(s@) && pre_g.self_permissions & REQUIRED_PERMISSIONS
                    != REQUIRED_PERMISSIONS ==> (r matches Err(Error::Discord(m)) && m@
                    == spec_missing_perms_msg(pre_g.self_permissions) && post_g == pre_g && post_db
                    == pre_db))
                &&& (is_valid_id_str(s@) && pre_g.self_permissions & REQUIRED_PERMISSIONS
                    == REQUIRED_PERMISSIONS && !pre_db.has_config(s@) ==> (r matches Err(
                    Error::NotFound(m),
                ) && m@ == "Server not set up. Run /setup-server first."@ && post_g == pre_g
                    && post_db == pre_db))
                &&& (is_valid_id_str(s@) && pre_g.self_permissions & REQUIRED_PERMISSIONS
                    == REQUIRED_PERMISSIONS && pre_db.has_config(s@) ==> approve_ok_post(
                    pre_g,
                    pre_db,
                    post_g,
                    post_db,
                    repo,
                    s@,
                    r,
                ))
            })
        })
    })
}

/// Approve a submitted project: verify the bot's permissions, repair the
/// shared category if it drifted, resolve or create the project's forum
/// (reusing the stored identifier only if it still resolves), and mark the
/// project approved with that forum and tenant. Approving an
/// already-approved project is its own reported conflict.
#[verifier::spinoff_prover]
#[verifier::rlimit(100)]
pub fn do_approve(
    g: &mut Guild,
    db: &mut Store,
    data: &InteractionData,
    guild_id: &Option<String>,
) -> (r: Result<String, Error>)
    requires
        old(g).wf(),
        old(db).wf(),
        old(g).next_id < u64::MAX - 2,
    ensures
        final(g).wf(),
        final(db).wf(),
        approve_post(*old(g), *old(db), *final(g), *final(db), *data, *guild_id, r),
{
    proof {
        reveal_strlit("GitHub");
    }
    let opts = match &data.options {
        Some(o) => o,
        None => {
            return Err(Error::InvalidPayload("missing options".to_owned()));
        }
    };
    let repo = match find_option(opts, "repo") {
        Some(v) => v,
        None => {
            return Err(Error::InvalidPayload("missing repo".to_owned()));
        }
    };
    let gid_str = match guild_id {
        Some(s) => s,
        None => {
            return Err(Error::InvalidPayload("missing guild_id".to_owned()));
        }
    };
    match parse_channel_id(gid_str.as_str()) {
        Some(_) => (),
        None => {
            return Err(Error::InvalidPayload("invalid guild_id".to_owned()));
        }
    }
    if g.self_permissions & REQUIRED_PERMISSIONS != REQUIRED_PERMISSIONS {
        return Err(Error::Discord(missing_perms_msg(g.self_permissions)));
    }
    let config = match get_config(db, gid_str.as_str()) {
        Some(c) => c,
        None => {
            return Err(Error::NotFound("Server not set up. Run /setup-server first.".to_owned()));
        }
    };
    let existing = crate::store::get_project(db, repo);
    let stored_ok = match &existing {
        Some(p) => crate::dispatch::channel_exists(g, p.forum_channel_id.as_str()),
        None => false,
    };
    let github_category = match g.find_channel_by_name("GitHub") {
        Some(id) => {
            proof {
                lemma_find_first_props(old(g).channels@, chan_named("GitHub"@));
            }
            let rendered = render_id(id);
            if !str_eq(rendered.as_str(), config.github_forum_id.as_str()) {
                save_config(
                    db,
                    gid_str.as_str(),
                    config.announcements_id.as_str(),
                    rendered.as_str(),
                );
            }
            id
        }
        None => {
            let id = g.create_channel(ChannelKind::Category, "GitHub", None);
            save_config(
                db,
                gid_str.as_str(),
                config.announcements_id.as_str(),
                render_id(id).as_str(),
            );
            id
        }
    };
    proof {
        assert(extends(old(g).channels@, g.channels@)) by {
            assert(g.channels@.subrange(0, old(g).channels@.len() as int) =~= old(g).channels@);
        }
    }
    match &existing {
        Some(p) => {
            if p.is_approved {
                return Err(Error::AlreadyApproved);
            }
        }
        None => (),
    }
    let ghost g_mid = *g;
    let ghost db_mid = *db;
    let mut is_new = true;
    let project_forum_id: u64 = match &existing {
        Some(p) => {
            if stored_ok {
                let id = match parse_channel_id(p.forum_channel_id.as_str()) {
                    Some(id) => id,
                    None => 1,
                };
                is_new = false;
                id
            } else {
                let name = crate::strutil::chars_to_string(&crate::strutil::short_name(repo));
                g.create_channel(ChannelKind::Forum, name.as_str(), Some(github_category))
            }
        }
        None => {
            let name = crate::strutil::chars_to_string(&crate::strutil::short_name(repo));
            g.create_channel(ChannelKind::Forum, name.as_str(), Some(github_category))
        }
    };
    let rendered_forum = render_id(project_forum_id);
    match crate::store::approve_project_with_forum(
        db,
        repo,
        rendered_forum.as_str(),
        gid_str.as_str(),
    ) {
        Ok(()) => (),
        Err(e) => {
            proof {
                crate::find::lemma_extends_refl(g_mid.channels@);
                assert(extends(old(g).channels@, g.channels@)) by {
                    assert(g.channels@.subrange(0, old(g).channels@.len() as int) =~= old(
                        g,
                    ).channels@);
                }
            }
            return Err(e);
        }
    }
    proof {
        lemma_render_parse(project_forum_id);
        assert(extends(old(g).channels@, g.channels@)) by {
            assert(g.channels@.subrange(0, old(g).channels@.len() as int) =~= old(g).channels@);
        }
        if !stored_ok {
            crate::find::lemma_find_first_is(
                g.channels@,
                chan_with_id(project_forum_id),
                g.channels@.len() - 1,
            );
        } else {
            crate::find::lemma_find_first_props(
                old(g).channels@,
                chan_with_id(project_forum_id),
            );
            crate::dispatch::lemma_resolves_extends(
                old(g).channels@,
                g.channels@,
                dec_str(project_forum_id as int),
            );
        }
    }
    let mut msg = "✅ Project `".to_owned();
    msg.append(repo);
    msg.append("` approved!\n\n");
    if is_new {
        msg.append("Created forum: <#");
    } else {
        msg.append("Reusing existing forum: <#");
    }
    msg.append(u64_to_dec(project_forum_id).as_str());
    msg.append(">");
    Ok(msg)
}

/// Approving a project already in the approved state is rejected with the
/// dedicated already-approved kind — never a generic failure — and, with the
/// shared category in place, alters no stored state.
pub proof fn lemma_approve_twice_rejected(
    pre_g: Guild,
    pre_db: Store,
    post_g: Guild,
    post_db: Store,
    data: InteractionData,
    gid: String,
    repo: Seq<char>,
    r: Result<String, Error>,
)
    requires
        approve_post(pre_g, pre_db, post_g, post_db, data, Some(gid), r),
        data.options matches Some(opts) && find_first(opts@, opt_named("repo"@)) >= 0 && opts@[
            find_first(opts@, opt_named("repo"@))
        ].value@ == repo,
        is_valid_id_str(gid@),
        pre_g.self_permissions & REQUIRED_PERMISSIONS == REQUIRED_PERMISSIONS,
        pre_db.has_config(gid@),
        pre_db.has_project(lower_seq(repo)),
        pre_db.project_at(lower_seq(repo)).is_approved,
        ({
            let fc = find_first(pre_g.channels@, chan_named("GitHub"@));
            fc >= 0 && dec_str(pre_g.channels@[fc].id as int) == pre_db.config_at(
                gid@,
            ).github_forum_id@
        }),
    ensures
        r matches Err(Error::AlreadyApproved),
        post_g == pre_g,
        post_db == pre_db,
{
}

/// Every identifier this tenant depends on resolves in the current listing:
/// the configured announcements channel and category, and every approved
/// project's forum.
pub open spec fn guild_resolved(g: Guild, db: Store, gid: Seq<char>) -> bool {
    &&& db.has_config(gid)
    &&& crate::dispatch::resolves_in(g.channels@, db.config_at(gid).announcements_id@)
    &&& crate::dispatch::resolves_in(g.channels@, db.config_at(gid).github_forum_id@)
    &&& forall|k: int|
        0 <= k < db.projects@.len() && (#[trigger] db.projects@[k]).guild_id@ == gid
            && db.projects@[k].is_approved ==> crate::dispatch::resolves_in(
            g.channels@,
            db.projects@[k].forum_channel_id@,
        )
}

/// Two report fragments joined with a newline; an empty fragment drops out.
pub open spec fn spec_join_lines(a: Seq<char>, b: Seq<char>) -> Seq<char> {
    if a.len() == 0 {
        b
    } else if b.len() == 0 {
        a
    } else {
        a + "\n"@ + b
    }
}

/// The repair lines for a tenant's projects, in listing order: one line per
/// approved project whose stored forum does not resolve in the listing.
pub open spec fn spec_forum_repair_lines(
    ps: Seq<crate::store::Project>,
    cs: Seq<crate::guild::ChannelRec>,
) -> Seq<char>
    decreases ps.len(),
{
    if ps.len() == 0 {
        Seq::empty()
    } else {
        let rest = spec_forum_repair_lines(ps.drop_last(), cs);
        if ps.last().is_approved && !crate::dispatch::resolves_in(
            cs,
            ps.last().forum_channel_id@,
        ) {
            spec_join_lines(rest, "✅ Recreated forum for `"@ + ps.last().github_repo@ + "`"@)
        } else {
            rest
        }
    }
}

/// The repair lines for the tenant's own two channels.
pub open spec fn spec_config_repair_lines(pre_g: Guild, pre_db: Store, gid: Seq<char>) -> Seq<
    char,
> {
    let cs = pre_g.channels@;
    let conf = pre_db.config_at(gid);
    let l1: Seq<char> = if !crate::dispatch::resolves_in(cs, conf.announcements_id@) {
        "✅ Recreated <#"@ + dec_str(pre_g.next_id as int) + "> (Announcements)"@
    } else {
        Seq::empty()
    };
    let l2: Seq<char> = if !crate::dispatch::resolves_in(cs, conf.github_forum_id@) {
        "✅ Recreated GitHub category"@
    } else {
        Seq::empty()
    };
    spec_join_lines(l1, l2)
}

/// Every repair the invocation performs, one line each, in the order they
/// are carried out.
pub open spec fn spec_repair_lines(pre_g: Guild, pre_db: Store, gid: Seq<char>) -> Seq<char> {
    spec_join_lines(
        spec_config_repair_lines(pre_g, pre_db, gid),
        spec_forum_repair_lines(
            crate::store::guild_list_spec(pre_db.projects@, gid),
            pre_g.channels@,
        ),
    )
}

/// The report a repair run answers with: the sync notice when nothing was
/// broken, else the list of repairs performed.
pub open spec fn spec_repair_msg(pre_g: Guild, pre_db: Store, gid: Seq<char>) -> Seq<char> {
    let lines = spec_repair_lines(pre_g, pre_db, gid);
    if lines.len() == 0 {
        "✅ All channels are in sync. Nothing to repair."@
    } else {
        "**Repairs completed:**\n"@ + lines
    }
}

/// What one repair invocation promises: each rejection with its exact kind;
/// on success the tenant comes out fully resolved, and a tenant that was
/// already fully resolved is left byte-for-byte alone with the
/// nothing-to-repair report.
pub open spec fn repair_post(
    pre_g: Guild,
    pre_db: Store,
    post_g: Guild,
    post_db: Store,
    guild_id: Option<String>,
    r: Result<String, Error>,
) -> bool {
    &&& (guild_id is None ==> (r matches Err(Error::InvalidPayload(m)) && m@ == "missing guild_id"@
        && post_g == pre_g && post_db == pre_db))
    &&& (guild_id matches Some(s) ==> {
        &&& (!is_valid_id_str(s@) ==> (r matches Err(Error::InvalidPayload(m)) && m@
            == "invalid guild_id"@ && post_g == pre_g && post_db == pre_db))
        &&& (is_valid_id_str(s@) && !pre_db.has_config(s@) ==> (r matches Err(Error::NotFound(m))
            && m@ == "Server not set up. Run /setup-server first."@ && post_g == pre_g && post_db
            == pre_db))
        &&& (is_valid_id_str(s@) && pre_db.has_config(s@) ==> {
            &&& r is Ok
            &&& guild_resolved(post_g, post_db, s@)
            &&& extends(pre_g.channels@, post_g.channels@)
            &&& post_g.threads@ == pre_g.threads@
            &&& post_g.posts@ == pre_g.posts@
            &&& post_g.id == pre_g.id
            &&& post_g.self_permissions == pre_g.self_permissions
            &&& post_db.projects@.len() == pre_db.projects@.len()
            &&& (forall|k: int|
                0 <= k < pre_db.projects@.len() ==> {
                    &&& (#[trigger] post_db.projects@[k]).github_repo == pre_db.projects@[
                        k
                    ].github_repo
                    &&& post_db.projects@[k].guild_id == pre_db.projects@[k].guild_id
                    &&& post_db.projects@[k].is_approved == pre_db.projects@[k].is_approved
                })
            &&& (guild_resolved(pre_g, pre_db, s@) ==> (post_g == pre_g && post_db == pre_db && (
            r matches Ok(m) && m@ == "✅ All channels are in sync. Nothing to repair."@)))
        })
    })
}

/// Repair a tenant: diff the configuration's identifiers and every approved
/// project's forum against the live listing, recreate whatever is missing,
/// persist the corrected identifiers, and report what was done. Converges:
/// one invocation leaves nothing for a second to repair.
#[verifier::spinoff_prover]
#[verifier::rlimit(100)]
pub fn do_repair(g: &mut Guild, db: &mut Store, guild_id: &Option<String>) -> (r: Result<
    String,
    Error,
>)
    requires
        old(g).wf(),
        old(db).wf(),
        old(g).next_id + old(db).projects@.len() + 2 < u64::MAX,
    ensures
        final(g).wf(),
        final(db).wf(),
        repair_post(*old(g), *old(db), *final(g), *final(db), *guild_id, r),
{
    let gid_str = match guild_id {
        Some(s) => s,
        None => {
            return Err(Error::InvalidPayload("missing guild_id".to_owned()));
        }
    };
    match parse_channel_id(gid_str.as_str()) {
        Some(_) => (),
        None => {
            return Err(Error::InvalidPayload("invalid guild_id".to_owned()));
        }
    }
    let config = match get_config(db, gid_str.as_str()) {
        Some(c) => c,
        None => {
            return Err(Error::NotFound("Server not set up. Run /setup-server first.".to_owned()));
        }
    };
    let ghost resolved_already = guild_resolved(*old(g), *old(db), gid_str@);
    proof {
        reveal_strlit("");
    }
    let n0 = g.channels.len();
    let mut report = "".to_owned();
    let ann_ok = crate::dispatch::channel_exists(g, config.announcements_id.as_str());
    let cat_ok = crate::dispatch::channel_exists(g, config.github_forum_id.as_str());
    let new_ann: String = if ann_ok {
        config.announcements_id.clone()
    } else {
        let id = g.create_channel(ChannelKind::Text, "announcements", None);
        report.append("✅ Recreated <#");
        report.append(u64_to_dec(id).as_str());
        report.append("> (Announcements)");
        render_id(id)
    };
    let new_cat: String = if cat_ok {
        config.github_forum_id.clone()
    } else {
        let id = g.create_channel(ChannelKind::Category, "GitHub", None);
        if report.as_str().unicode_len() > 0 {
            report.append("\n");
        }
        report.append("✅ Recreated GitHub category");
        render_id(id)
    };
    if !ann_ok || !cat_ok {
        save_config(db, gid_str.as_str(), new_ann.as_str(), new_cat.as_str());
    }
    let github_cat: Option<u64> = parse_channel_id(new_cat.as_str());
    proof {
        if !ann_ok {
            lemma_render_parse(old(g).next_id);
        }
        if !cat_ok {
            lemma_render_parse((old(g).next_id + (if ann_ok {
                0int
            } else {
                1int
            })) as u64);
        }
    }
    let ghost g_start = *g;
    let ghost db_start = *db;
    proof {
        assert(extends(old(g).channels@, g_start.channels@)) by {
            assert(g_start.channels@.subrange(0, old(g).channels@.len() as int) =~= old(
                g,
            ).channels@);
        }
        assert(crate::dispatch::resolves_in(
            g_start.channels@,
            db_start.config_at(gid_str@).announcements_id@,
        )) by {
            if ann_ok {
                crate::dispatch::lemma_resolves_extends(
                    old(g).channels@,
                    g_start.channels@,
                    old(db).config_at(gid_str@).announcements_id@,
                );
            } else {
                crate::find::lemma_find_first_is(
                    g_start.channels@,
                    chan_with_id(old(g).next_id),
                    old(g).channels@.len() as int,
                );
            }
        }
        assert(crate::dispatch::resolves_in(
            g_start.channels@,
            db_start.config_at(gid_str@).github_forum_id@,
        )) by {
            if cat_ok {
                crate::dispatch::lemma_resolves_extends(
                    old(g).channels@,
                    g_start.channels@,
                    old(db).config_at(gid_str@).github_forum_id@,
                );
            } else {
                crate::find::lemma_find_first_is(
                    g_start.channels@,
                    chan_with_id((g_start.next_id - 1) as u64),
                    g_start.channels@.len() - 1,
                );
            }
        }
        if resolved_already {
            assert(*g == *old(g) && *db == *old(db));
            assert(report@.len() == 0);
        }
    }
    let projects = crate::store::list_projects_by_guild(db, gid_str.as_str());
    proof {
        crate::store::lemma_guild_list_elems(db_start.projects@, gid_str@);
        crate::find::lemma_extends_refl(g_start.channels@);
        assert(projects@.subrange(0, 0) =~= Seq::<crate::store::Project>::empty());
    }
    let n = projects.len();
    let mut i: usize = 0;
    while i < n
        invariant
            i <= n,
            n == projects@.len(),
            projects@ == crate::store::guild_list_spec(db_start.projects@, gid_str@),
            g.wf(),
            db.wf(),
            db_start.wf(),
            g_start.wf(),
            old(g).wf(),
            old(db).wf(),
            g_start.next_id + db_start.projects@.len() < u64::MAX,
            projects@.len() <= db_start.projects@.len(),
            db.configs@ == db_start.configs@,
            db.projects@.len() == db_start.projects@.len(),
            forall|k: int|
                0 <= k < db_start.projects@.len() ==> {
                    &&& (#[trigger] db.projects@[k]).github_repo == db_start.projects@[
                        k
                    ].github_repo
                    &&& db.projects@[k].guild_id == db_start.projects@[k].guild_id
                    &&& db.projects@[k].is_approved == db_start.projects@[k].is_approved
                },
            forall|rl: Seq<char>| #[trigger] db.project_idx(rl) == db_start.project_idx(rl),
            extends(g_start.channels@, g.channels@),
            g.threads@ == g_start.threads@,
            g.posts@ == g_start.posts@,
            g.id == g_start.id,
            g.self_permissions == g_start.self_permissions,
            g.next_id <= g_start.next_id + i,
            github_cat matches Some(gc),
            resolved_already == guild_resolved(*old(g), *old(db), gid_str@),
            resolved_already ==> (g_start == *old(g) && db_start == *old(db)),
            is_valid_id_str(gid_str@),
            *guild_id == Some(*gid_str),
            old(db).has_config(gid_str@),
            db_start.has_config(gid_str@),
            db_start.projects@ == old(db).projects@,
            crate::dispatch::resolves_in(
                g_start.channels@,
                db_start.config_at(gid_str@).announcements_id@,
            ),
            crate::dispatch::resolves_in(
                g_start.channels@,
                db_start.config_at(gid_str@).github_forum_id@,
            ),
            extends(old(g).channels@, g_start.channels@),
            g_start.threads@ == old(g).threads@,
            g_start.posts@ == old(g).posts@,
            g_start.id == old(g).id,
            g_start.self_permissions == old(g).self_permissions,
            forall|j: int|
                0 <= j < i && (#[trigger] projects@[j]).is_approved
                    ==> crate::dispatch::resolves_in(
                    g.channels@,
                    db.projects@[db_start.project_idx(projects@[j].github_repo@)].forum_channel_id@,
                ),
            forall|k: int|
                0 <= k < db_start.projects@.len() ==> (#[trigger] db.projects@[k]
                    == db_start.projects@[k] || crate::dispatch::resolves_in(
                    g.channels@,
                    db.projects@[k].forum_channel_id@,
                )),
            resolved_already ==> (*g == *old(g) && *db == *old(db) && report@.len() == 0),
            n0 == old(g).channels@.len(),
        decreases n - i,
    {
        let ghost g_iter = *g;
        let ghost db_iter = *db;
        if projects[i].is_approved {
            proof {
                let gl = crate::store::guild_list_spec(db_start.projects@, gid_str@);
                crate::store::lemma_guild_list_elems(db_start.projects@, gid_str@);
                assert(projects@[i as int] == gl[i as int]);
                assert(gl[i as int].guild_id@ == gid_str@);
                let k = choose|k: int|
                    0 <= k < db_start.projects@.len() && #[trigger] db_start.projects@[k] == gl[
                        i as int
                    ];
                crate::store::lemma_project_self_lookup(db_start, k);
                assert(db_start.project_idx(projects@[i as int].github_repo@) == k);
                assert(lower_seq(projects@[i as int].github_repo@) == projects@[
                    i as int
                ].github_repo@);
                if resolved_already {
                    assert(old(db).projects@[k].guild_id@ == gid_str@ && old(
                        db,
                    ).projects@[k].is_approved);
                    assert(crate::dispatch::resolves_in(
                        g.channels@,
                        projects@[i as int].forum_channel_id@,
                    ));
                }
                crate::find::lemma_extends_trans(
                    old(g).channels@,
                    g_start.channels@,
                    g.channels@,
                );
                assert(g.channels@.subrange(0, n0 as int) =~= old(g).channels@);
            }
            if !crate::dispatch::channel_exists_among(
                g,
                n0,
                projects[i].forum_channel_id.as_str(),
            ) {
                match github_cat {
                    Some(cat_id) => {
                        let name = crate::strutil::chars_to_string(
                            &crate::strutil::short_name(projects[i].github_repo.as_str()),
                        );
                        let nid = g.create_channel(ChannelKind::Forum, name.as_str(), Some(cat_id));
                        let rendered = render_id(nid);
                        proof {
                            lemma_render_parse(nid);
                            crate::find::lemma_find_first_props(
                                db_iter.projects@,
                                crate::store::proj_with_repo(
                                    lower_seq(projects@[i as int].github_repo@),
                                ),
                            );
                        }
                        match crate::store::update_forum_id(
                            db,
                            projects[i].github_repo.as_str(),
                            rendered.as_str(),
                        ) {
                            Ok(()) => (),
                            Err(_) => {
                                proof {
                                    assert(false);
                                }
                            }
                        }
                        if report.as_str().unicode_len() > 0 {
                            report.append("\n");
                        }
                        report.append("✅ Recreated forum for `");
                        report.append(projects[i].github_repo.as_str());
                        report.append("`");
                        proof {
                            let idx = db_start.project_idx(projects@[i as int].github_repo@);
                            assert(db_iter.project_idx(lower_seq(projects@[i as int].github_repo@))
                                == idx);
                            crate::store::lemma_update_keeps_wf(db_iter, *db, idx);
                            assert(extends(g_iter.channels@, g.channels@)) by {
                                assert(g.channels@.subrange(0, g_iter.channels@.len() as int)
                                    =~= g_iter.channels@);
                            }
                            crate::find::lemma_extends_trans(
                                g_start.channels@,
                                g_iter.channels@,
                                g.channels@,
                            );
                            crate::find::lemma_find_first_is(
                                g.channels@,
                                chan_with_id(nid),
                                g.channels@.len() - 1,
                            );
                            assert forall|j: int|
                                0 <= j < i + 1 && (#[trigger] projects@[j]).is_approved implies crate::dispatch::resolves_in(
                                g.channels@,
                                db.projects@[db_start.project_idx(
                                    projects@[j].github_repo@,
                                )].forum_channel_id@,
                            ) by {
                                if j < i {
                                    let gl = crate::store::guild_list_spec(
                                        db_start.projects@,
                                        gid_str@,
                                    );
                                    crate::store::lemma_guild_list_elems(
                                        db_start.projects@,
                                        gid_str@,
                                    );
                                    let kj = db_start.project_idx(projects@[j].github_repo@);
                                    let k2 = choose|k2: int|
                                        0 <= k2 < db_start.projects@.len()
                                            && #[trigger] db_start.projects@[k2] == gl[j];
                                    crate::store::lemma_project_self_lookup(db_start, k2);
                                    assert(projects@[j] == gl[j]);
                                    assert(kj == k2);
                                    if kj != idx {
                                        assert(db.projects@[kj] == db_iter.projects@[kj]);
                                        crate::dispatch::lemma_resolves_extends(
                                            g_iter.channels@,
                                            g.channels@,
                                            db_iter.projects@[kj].forum_channel_id@,
                                        );
                                    }
                                }
                            }
                            assert forall|k: int|
                                0 <= k < db_start.projects@.len() implies (
                            #[trigger] db.projects@[k] == db_start.projects@[k]
                                || crate::dispatch::resolves_in(
                                g.channels@,
                                db.projects@[k].forum_channel_id@,
                            )) by {
                                if k != idx && db_iter.projects@[k] != db_start.projects@[k] {
                                    crate::dispatch::lemma_resolves_extends(
                                        g_iter.channels@,
                                        g.channels@,
                                        db_iter.projects@[k].forum_channel_id@,
                                    );
                                }
                            }
                        }
                    }
                    None => {
                        proof {
                            assert(false);
                        }
                    }
                }
            } else {
                proof {
                    let gl = crate::store::guild_list_spec(db_start.projects@, gid_str@);
                    crate::store::lemma_guild_list_elems(db_start.projects@, gid_str@);
                    let k = choose|k: int|
                        0 <= k < db_start.projects@.len() && #[trigger] db_start.projects@[k]
                            == gl[i as int];
                    crate::store::lemma_project_self_lookup(db_start, k);
                    let idx = db_start.project_idx(projects@[i as int].github_repo@);
                    assert(idx == k);
                    crate::dispatch::lemma_resolves_extends(
                        old(g).channels@,
                        g.channels@,
                        projects@[i as int].forum_channel_id@,
                    );
                    if db.projects@[k] == db_start.projects@[k] {
                        assert(db.projects@[k].forum_channel_id@ == projects@[
                            i as int
                        ].forum_channel_id@);
                    }
                }
            }
        }
        proof {
            assert(projects@.subrange(0, i + 1 as int).drop_last() =~= projects@.subrange(
                0,
                i as int,
            ));
        }
        i = i + 1;
    }
    let r: Result<String, Error>;
    if report.as_str().unicode_len() == 0 {
        r = Ok("✅ All channels are in sync. Nothing to repair.".to_owned());
    } else {
        let mut msg = "**Repairs completed:**\n".to_owned();
        msg.append(report.as_str());
        r = Ok(msg);
    }
    proof {
        assert(projects@.subrange(0, n as int) =~= projects@);
        crate::find::lemma_extends_trans(old(g).channels@, g_start.channels@, g.channels@);
        assert(guild_resolved(*g, *db, gid_str@)) by {
            crate::dispatch::lemma_resolves_extends(
                g_start.channels@,
                g.channels@,
                db_start.config_at(gid_str@).announcements_id@,
            );
            crate::dispatch::lemma_resolves_extends(
                g_start.channels@,
                g.channels@,
                db_start.config_at(gid_str@).github_forum_id@,
            );
            assert forall|k: int|
                0 <= k < db.projects@.len() && (#[trigger] db.projects@[k]).guild_id@ == gid_str@
                    && db.projects@[k].is_approved implies crate::dispatch::resolves_in(
                g.channels@,
                db.projects@[k].forum_channel_id@,
            ) by {
                let gl = crate::store::guild_list_spec(db_start.projects@, gid_str@);
                crate::store::lemma_guild_list_elems(db_start.projects@, gid_str@);
                assert(db_start.projects@[k].guild_id@ == gid_str@
                    && db_start.projects@[k].is_approved);
                let j = choose|j: int|
                    0 <= j < gl.len() && #[trigger] gl[j] == db_start.projects@[k];
                crate::store::lemma_project_self_lookup(db_start, k);
                assert(projects@[j] == gl[j]);
                assert(projects@[j].is_approved);
                assert(db_start.project_idx(projects@[j].github_repo@) == k);
            }
        }
    }
    r
}

/// Repair converges: after one repair of a tenant whose stored identifiers
/// had drifted, a second invocation finds every identifier resolving,
/// changes nothing, and reports that nothing needed repair.
pub proof fn lemma_repair_convergence(
    g0: Guild,
    db0: Store,
    g1: Guild,
    db1: Store,
    g2: Guild,
    db2: Store,
    gid: String,
    r1: Result<String, Error>,
    r2: Result<String, Error>,
)
    requires
        repair_post(g0, db0, g1, db1, Some(gid), r1),
        repair_post(g1, db1, g2, db2, Some(gid), r2),
        is_valid_id_str(gid@),
        db0.has_config(gid@),
    ensures
        g2 == g1,
        db2 == db1,
        r2 matches Ok(m) && m@ == "✅ All channels are in sync. Nothing to repair."@,
{
    assert(guild_resolved(g1, db1, gid@));
    assert(db1.has_config(gid@));
}

/// Register a repository for approval on a member's behalf; an existing
/// submission is answered with a friendly notice rather than an error.
pub fn handle_submit_project(db: &mut Store, data: &InteractionData) -> (r: Result<String, Error>)
    requires
        old(db).wf(),
        old(db).next_key < u64::MAX,
    ensures
        final(db).wf(),
        data.options is None ==> (r matches Err(Error::InvalidPayload(m)) && m@
            == "missing options"@ && *final(db) == *old(db)),
        data.options matches Some(opts) ==> {
            let fo = find_first(opts@, opt_named("repo"@));
            &&& (fo < 0 ==> (r matches Err(Error::InvalidPayload(m)) && m@ == "missing repo"@
                && *final(db) == *old(db)))
            &&& (fo >= 0 && old(db).has_project(lower_seq(opts@[fo].value@)) ==> (r matches Ok(m)
                && m@ == "⚠️ Project `"@ + opts@[fo].value@ + "` has already been submitted."@
                && *final(db) == *old(db)))
            &&& (fo >= 0 && !old(db).has_project(lower_seq(opts@[fo].value@)) ==> (r matches Ok(m)
                && m@ == "Project `"@ + opts@[fo].value@ + "` submitted for approval."@
                && final(db).has_project(lower_seq(opts@[fo].value@))))
        },
{
    let opts = match &data.options {
        Some(o) => o,
        None => {
            return Err(Error::InvalidPayload("missing options".to_owned()));
        }
    };
    let repo = match find_option(opts, "repo") {
        Some(v) => v,
        None => {
            return Err(Error::InvalidPayload("missing repo".to_owned()));
        }
    };
    match crate::store::submit_project(db, repo) {
        Ok(_) => {
            proof {
                crate::store::lemma_lower_idempotent(repo@);
                crate::find::lemma_find_first_is(
                    db.projects@,
                    crate::store::proj_with_repo(lower_seq(repo@)),
                    db.projects@.len() - 1,
                );
            }
            let mut m = "Project `".to_owned();
            m.append(repo);
            m.append("` submitted for approval.");
            Ok(m)
        }
        Err(Error::ProjectAlreadyExists(_)) => {
            let mut m = "⚠️ Project `".to_owned();
            m.append(repo);
            m.append("` has already been submitted.");
            Ok(m)
        }
        Err(e) => Err(e),
    }
}

/// Deny a submission: moderator-gated removal of the project.
pub fn handle_deny(db: &mut Store, member: Option<&Member>, data: &InteractionData) -> (r: Result<
    String,
    Error,
>)
    requires
        old(db).wf(),
    ensures
        final(db).wf(),
        !(member matches Some(m) && spec_is_moderator(*m)) ==> (r matches Err(Error::Unauthorized)
            && *final(db) == *old(db)),
        (member matches Some(m) && spec_is_moderator(*m)) ==> {
            &&& (data.options is None ==> (r matches Err(Error::InvalidPayload(msg)) && msg@
                == "missing options"@ && *final(db) == *old(db)))
            &&& (data.options matches Some(opts) ==> {
                let fo = find_first(opts@, opt_named("repo"@));
                &&& (fo < 0 ==> (r matches Err(Error::InvalidPayload(msg)) && msg@
                    == "missing repo"@ && *final(db) == *old(db)))
                &&& (fo >= 0 && !old(db).has_project(lower_seq(opts@[fo].value@)) ==> (r matches Err(
                    Error::NotFound(msg),
                ) && msg@ == "Project not found"@ && *final(db) == *old(db)))
                &&& (fo >= 0 && old(db).has_project(lower_seq(opts@[fo].value@)) ==> {
                    &&& (r matches Ok(msg) && msg@ == "Project `"@ + opts@[fo].value@
                        + "` denied and removed."@)
                    &&& final(db).configs@ == old(db).configs@
                    &&& final(db).projects@ == old(db).projects@.remove(
                        old(db).project_idx(lower_seq(opts@[fo].value@)),
                    )
                    &&& !final(db).has_project(lower_seq(opts@[fo].value@))
                })
            })
        },
{
    match check_moderator(member) {
        Ok(()) => (),
        Err(e) => {
            return Err(e);
        }
    }
    let opts = match &data.options {
        Some(o) => o,
        None => {
            return Err(Error::InvalidPayload("missing options".to_owned()));
        }
    };
    let repo = match find_option(opts, "repo") {
        Some(v) => v,
        None => {
            return Err(Error::InvalidPayload("missing repo".to_owned()));
        }
    };
    match crate::store::deny_project(db, repo) {
        Ok(()) => (),
        Err(e) => {
            return Err(e);
        }
    }
    let mut m = "Project `".to_owned();
    m.append(repo);
    m.append("` denied and removed.");
    Ok(m)
}

/// Whitelist a username: moderator-gated, currently recorded and dropped.
pub fn handle_whitelist(db: &mut Store, member: Option<&Member>, data: &InteractionData) -> (r:
    Result<String, Error>)
    requires
        old(db).wf(),
    ensures
        final(db).wf(),
        *final(db) == *old(db),
        !(member matches Some(m) && spec_is_moderator(*m)) ==> r matches Err(Error::Unauthorized),
        (member matches Some(m) && spec_is_moderator(*m)) ==> {
            &&& (data.options is None ==> (r matches Err(Error::InvalidPayload(msg)) && msg@
                == "missing options"@))
            &&& (data.options matches Some(opts) ==> {
                let fo = find_first(opts@, opt_named("username"@));
                &&& (fo < 0 ==> (r matches Err(Error::InvalidPayload(msg)) && msg@
                    == "missing username"@))
                &&& (fo >= 0 ==> (r matches Ok(msg) && msg@ == "User `"@ + opts@[fo].value@
                    + "` added to whitelist."@))
            })
        },
{
    match check_moderator(member) {
        Ok(()) => (),
        Err(e) => {
            return Err(e);
        }
    }
    let opts = match &data.options {
        Some(o) => o,
        None => {
            return Err(Error::InvalidPayload("missing options".to_owned()));
        }
    };
    let username = match find_option(opts, "username") {
        Some(v) => v,
        None => {
            return Err(Error::InvalidPayload("missing username".to_owned()));
        }
    };
    match crate::whitelist::add_user(db, username) {
        Ok(()) => (),
        Err(e) => {
            return Err(e);
        }
    }
    let mut m = "User `".to_owned();
    m.append(username);
    m.append("` added to whitelist.");
    Ok(m)
}

/// The bullet lines for the tenant's projects in one approval state,
/// joined with newlines.
pub open spec fn spec_bullets(ps: Seq<crate::store::Project>, approved: bool) -> Seq<char>
    decreases ps.len(),
{
    if ps.len() == 0 {
        Seq::empty()
    } else {
        let rest = spec_bullets(ps.drop_last(), approved);
        if ps.last().is_approved == approved {
            let line = "• `"@ + ps.last().github_repo@ + "`"@;
            if rest.len() == 0 {
                line
            } else {
                rest + "\n"@ + line
            }
        } else {
            rest
        }
    }
}

fn bullets(ps: &Vec<crate::store::Project>, approved: bool) -> (r: String)
    ensures
        r@ == spec_bullets(ps@, approved),
{
    proof {
        reveal_strlit("");
    }
    let mut acc = "".to_owned();
    let mut i: usize = 0;
    while i < ps.len()
        invariant
            i <= ps@.len(),
            acc@ == spec_bullets(ps@.subrange(0, i as int), approved),
        decreases ps@.len() - i,
    {
        proof {
            assert(ps@.subrange(0, i + 1 as int).drop_last() =~= ps@.subrange(0, i as int));
        }
        if ps[i].is_approved == approved {
            if acc.as_str().unicode_len() > 0 {
                acc.append("\n");
            }
            acc.append("• `");
            acc.append(ps[i].github_repo.as_str());
            acc.append("`");
        }
        i = i + 1;
    }
    proof {
        assert(ps@.subrange(0, ps@.len() as int) =~= ps@);
    }
    acc
}

/// The listing a moderator sees: approved projects, then pending ones.
pub open spec fn spec_list_msg(ps: Seq<crate::store::Project>) -> Seq<char> {
    let approved = spec_bullets(ps, true);
    let pending = spec_bullets(ps, false);
    if ps.len() == 0 {
        "No projects registered in this server."@
    } else {
        (if approved.len() > 0 {
            "**✅ Approved:**\n"@ + approved
        } else {
            Seq::empty()
        }) + (if pending.len() > 0 {
            (if approved.len() > 0 {
                "\n\n"@
            } else {
                Seq::empty()
            }) + "**⏳ Pending:**\n"@ + pending
        } else {
            Seq::empty()
        })
    }
}

/// List the tenant's projects, approved and pending, for a moderator.
pub fn handle_list(db: &Store, member: Option<&Member>, guild_id: &Option<String>) -> (r: Result<
    String,
    Error,
>)
    ensures
        !(member matches Some(m) && spec_is_moderator(*m)) ==> r matches Err(Error::Unauthorized),
        ((member matches Some(m) && spec_is_moderator(*m)) && guild_id is None) ==> (r matches Err(
            Error::InvalidPayload(msg),
        ) && msg@ == "missing guild_id"@),
        guild_id matches Some(s) ==> ((member matches Some(m) && spec_is_moderator(*m)) ==> (
        r matches Ok(msg) && msg@ == spec_list_msg(
            crate::store::guild_list_spec(db.projects@, s@),
        ))),
{
    match check_moderator(member) {
        Ok(()) => (),
        Err(e) => {
            return Err(e);
        }
    }
    let gid_str = match guild_id {
        Some(s) => s,
        None => {
            return Err(Error::InvalidPayload("missing guild_id".to_owned()));
        }
    };
    let projects = crate::store::list_projects_by_guild(db, gid_str.as_str());
    if projects.len() == 0 {
        return Ok("No projects registered in this server.".to_owned());
    }
    proof {
        reveal_strlit("");
    }
    let approved = bullets(&projects, true);
    let pending = bullets(&projects, false);
    let mut response = "".to_owned();
    if approved.as_str().unicode_len() > 0 {
        response.append("**✅ Approved:**\n");
        response.append(approved.as_str());
    }
    if pending.as_str().unicode_len() > 0 {
        if approved.as_str().unicode_len() > 0 {
            response.append("\n\n");
        }
        response.append("**⏳ Pending:**\n");
        response.append(pending.as_str());
    }
    proof {
        assert(response@ =~= spec_list_msg(
            crate::store::guild_list_spec(db.projects@, gid_str@),
        ));
    }
    Ok(response)
}

/// What the transport should do with one authenticated interaction.
pub enum InteractionPlan {
    /// Liveness ping: answer immediately, run nothing.
    Pong,
    /// Answer at once with this ephemeral message.
    Reply(String),
    /// Acknowledge as deferred and run this expensive command out-of-band.
    Defer(String),
    /// Run this ordinary command synchronously and answer with its output.
    RunCommand(String),
}

/// The commands that mutate destination-system state and so are deferred,
/// rate-limited and moderator-gated.
pub open spec fn spec_is_expensive(name: Seq<char>) -> bool {
    name == "setup-server"@ || name == "approve"@ || name == "repair"@
}

pub open spec fn spec_guild_only_msg() -> Seq<char> {
    "❌ This command can only be used in a server."@
}

pub open spec fn spec_rate_msg(w: u64) -> Seq<char> {
    "⏳ Rate limited. Please wait "@ + dec_str(w as int)
        + " seconds before running this command again."@
}

/// Triage one interaction at time `now`: answer pings at once; reject
/// guild-less or rate-limited invocations of the expensive commands with an
/// ephemeral notice, unauthorized ones with the unauthorized kind, and defer
/// admitted ones; pass every other command through for synchronous handling.
pub fn plan_interaction(
    interaction: &Interaction,
    limiter: &mut crate::rate_limit::RateLimiter,
    now: u64,
) -> (r: Result<InteractionPlan, Error>)
    requires
        old(limiter).wf(),
    ensures
        final(limiter).wf(),
        interaction.kind == 1 ==> (r matches Ok(InteractionPlan::Pong) && *final(limiter) == *old(
            limiter,
        )),
        interaction.kind == 2 && interaction.data is None ==> (r matches Err(
            Error::InvalidPayload(m),
        ) && m@ == "missing data"@ && *final(limiter) == *old(limiter)),
        interaction.data matches Some(d) ==> interaction.kind == 2 ==> {
            &&& (!spec_is_expensive(d.name@) ==> (r matches Ok(InteractionPlan::RunCommand(n))
                && n@ == d.name@ && *final(limiter) == *old(limiter)))
            &&& (spec_is_expensive(d.name@) && interaction.guild_id is None ==> (r matches Ok(
                InteractionPlan::Reply(m),
            ) && m@ == spec_guild_only_msg() && *final(limiter) == *old(limiter)))
            &&& (spec_is_expensive(d.name@) ==> (interaction.guild_id matches Some(s) ==> exists|
                rate: Result<(), u64>,
            |
                {
                    &&& #[trigger] crate::rate_limit::check_post(
                        *old(limiter),
                        *final(limiter),
                        s@,
                        now,
                        rate,
                    )
                    &&& (rate matches Err(w) ==> (r matches Ok(InteractionPlan::Reply(m)) && m@
                        == spec_rate_msg(w)))
                    &&& (rate is Ok ==> {
                        &&& ((interaction.member matches Some(mb) && spec_is_moderator(mb)) ==> (
                        r matches Ok(InteractionPlan::Defer(n)) && n@ == d.name@))
                        &&& (!(interaction.member matches Some(mb) && spec_is_moderator(mb)) ==> (
                        r matches Err(Error::Unauthorized)))
                    })
                }))
        },
        !(interaction.kind == 1 || interaction.kind == 2) ==> (r matches Ok(InteractionPlan::Pong)
            && *final(limiter) == *old(limiter)),
{
    if interaction.kind == 1 {
        return Ok(InteractionPlan::Pong);
    }
    if interaction.kind == 2 {
        let data = match &interaction.data {
            Some(d) => d,
            None => {
                return Err(Error::InvalidPayload("missing data".to_owned()));
            }
        };
        let expensive = str_eq(data.name.as_str(), "setup-server") || str_eq(
            data.name.as_str(),
            "approve",
        ) || str_eq(data.name.as_str(), "repair");
        if expensive {
            let gid = match &interaction.guild_id {
                Some(s) => s,
                None => {
                    return Ok(
                        InteractionPlan::Reply(
                            "❌ This command can only be used in a server.".to_owned(),
                        ),
                    );
                }
            };
            let rate = limiter.check_at(gid.as_str(), now);
            match rate {
                Err(wait_secs) => {
                    let mut m = "⏳ Rate limited. Please wait ".to_owned();
                    m.append(u64_to_dec(wait_secs).as_str());
                    m.append(" seconds before running this command again.");
                    proof {
                        assert(crate::rate_limit::check_post(
                            *old(limiter),
                            *limiter,
                            gid@,
                            now,
                            rate,
                        ));
                    }
                    return Ok(InteractionPlan::Reply(m));
                }
                Ok(()) => (),
            }
            match check_moderator(match &interaction.member {
                Some(m) => Some(m),
                None => None,
            }) {
                Ok(()) => (),
                Err(e) => {
                    proof {
                        assert(crate::rate_limit::check_post(
                            *old(limiter),
                            *limiter,
                            gid@,
                            now,
                            rate,
                        ));
                    }
                    return Err(e);
                }
            }
            proof {
                assert(crate::rate_limit::check_post(*old(limiter), *limiter, gid@, now, rate));
            }
            return Ok(InteractionPlan::Defer(data.name.clone()));
        }
        return Ok(InteractionPlan::RunCommand(data.name.clone()));
    }
    Ok(InteractionPlan::Pong)
}

} // verus!
