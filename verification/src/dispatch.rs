//! The reconciliation engine: route one inbound event to its project's
//! forum, repair whatever identifiers have drifted, and post to the
//! activity thread, the sidebar threads and the announcements channel as
//! the filter policy directs.

use vstd::prelude::*;

use crate::error::Error;
use crate::events::ParsedEvent;
use crate::find::{find_first, lemma_find_first_props, lemma_find_first_push};
use crate::format::{COLOR_BOUNTY, COLOR_FAILURE, COLOR_ISSUE, COLOR_PR, COLOR_SUCCESS};
use crate::guild::{
    chan_named, chan_with_id, ChannelKind, Guild, thread_named, thread_with_id,
};
use crate::ids::{is_valid_id_str, parse_channel_id, render_id};
use crate::policy::{is_bot_actor, should_announce, should_log, should_post};
use crate::store::{get_approved_project, get_config, Project, Store, update_forum_id,
    update_thread_id};
use crate::strutil::{
    chars_to_string, dec_str, dec_val, lower_chars, lower_seq, short_name, short_name_spec,
    str_eq, to_chars,
};

verus! {

/// A persisted identifier resolves against a channel listing: it denotes a
/// number and a listed channel carries it.
pub open spec fn resolves_in(channels: Seq<crate::guild::ChannelRec>, stored: Seq<char>) -> bool {
    &&& is_valid_id_str(stored)
    &&& find_first(channels, chan_with_id((dec_val(stored) as u64))) >= 0
}

/// A resolved identifier stays resolved when channels are only added.
pub proof fn lemma_resolves_extends(
    a: Seq<crate::guild::ChannelRec>,
    b: Seq<crate::guild::ChannelRec>,
    stored: Seq<char>,
)
    requires
        resolves_in(a, stored),
        crate::find::extends(a, b),
    ensures
        resolves_in(b, stored),
{
    let id = (dec_val(stored) as u64);
    lemma_find_first_props(a, chan_with_id(id));
    let f = find_first(a, chan_with_id(id));
    assert(b.subrange(0, a.len() as int)[f] == b[f]);
    lemma_find_first_props(b, chan_with_id(id));
    if find_first(b, chan_with_id(id)) == -1 {
        assert(!chan_with_id(id)(b[f]));
        assert(false);
    }
}

/// Check a stored identifier against a listing.
pub fn channel_exists(g: &Guild, stored: &str) -> (r: bool)
    ensures
        r == resolves_in(g.channels@, stored@),
{
    match parse_channel_id(stored) {
        Some(id) => g.channel_id_exists(id),
        None => false,
    }
}

/// Check a stored identifier against the first `n` listed channels: the
/// snapshot semantics the repair pass diffs against, so channels created
/// while repairing never count as already present.
pub fn channel_exists_among(g: &Guild, n: usize, stored: &str) -> (r: bool)
    requires
        n <= g.channels@.len(),
    ensures
        r == resolves_in(g.channels@.subrange(0, n as int), stored@),
{
    let id = match parse_channel_id(stored) {
        Some(id) => id,
        None => {
            return false;
        }
    };
    let ghost sub = g.channels@.subrange(0, n as int);
    let mut i: usize = 0;
    while i < n
        invariant
            i <= n,
            n <= g.channels@.len(),
            sub == g.channels@.subrange(0, n as int),
            is_valid_id_str(stored@),
            id as int == dec_val(stored@),
            forall|k: int| 0 <= k < i ==> !chan_with_id(id)((#[trigger] sub[k])),
        decreases n - i,
    {
        if g.channels[i].id == id {
            proof {
                assert(sub[i as int] == g.channels@[i as int]);
                crate::find::lemma_find_first_is(sub, chan_with_id(id), i as int);
            }
            return true;
        }
        proof {
            assert(sub[i as int] == g.channels@[i as int]);
        }
        i = i + 1;
    }
    proof {
        crate::find::lemma_find_first_none(sub, chan_with_id(id));
    }
    false
}

/// The name a project's activity thread always carries.
pub open spec fn activity_thread_name_spec(repo: Seq<char>) -> Seq<char> {
    "📦 "@ + short_name_spec(repo) + " Activity"@
}

fn activity_thread_name(repo: &str) -> (r: String)
    ensures
        r@ == activity_thread_name_spec(repo@),
{
    let mut s = "📦 ".to_owned();
    s.append(chars_to_string(&short_name(repo)).as_str());
    s.append(" Activity");
    s
}

/// The forum reconciliation in full: the persisted identifier is reused
/// exactly when it resolves against the listing; otherwise a forum named
/// after the repository's short name is created inside the shared category
/// (itself found by exact name or created) and the fresh identifier is
/// persisted onto the project.
pub open spec fn forum_post(
    pre_g: Guild,
    pre_db: Store,
    post_g: Guild,
    post_db: Store,
    project: Project,
    repo: Seq<char>,
    fid: u64,
) -> bool {
    let cs = pre_g.channels@;
    let fc = find_first(cs, chan_named("GitHub"@));
    let cat: u64 = if fc >= 0 {
        cs[fc].id
    } else {
        pre_g.next_id
    };
    &&& fid >= 1
    &&& find_first(post_g.channels@, chan_with_id(fid)) >= 0
    &&& post_g.threads@ == pre_g.threads@
    &&& post_g.posts@ == pre_g.posts@
    &&& post_g.id == pre_g.id
    &&& post_g.self_permissions == pre_g.self_permissions
    &&& crate::find::extends(cs, post_g.channels@)
    &&& post_db.configs@ == pre_db.configs@
    &&& (if resolves_in(cs, project.forum_channel_id@) {
        &&& post_g == pre_g
        &&& post_db == pre_db
        &&& fid as int == dec_val(project.forum_channel_id@)
    } else {
        let idx = pre_db.project_idx(lower_seq(repo));
        &&& (fc >= 0 ==> {
            &&& post_g.channels@.len() == cs.len() + 1
            &&& fid == pre_g.next_id
            &&& post_g.next_id == pre_g.next_id + 1
        })
        &&& (fc < 0 ==> {
            &&& post_g.channels@.len() == cs.len() + 2
            &&& fid as int == pre_g.next_id + 1
            &&& post_g.next_id == pre_g.next_id + 2
            &&& post_g.channels@[cs.len() as int].id == cat
            &&& post_g.channels@[cs.len() as int].name@ == "GitHub"@
            &&& post_g.channels@[cs.len() as int].kind == ChannelKind::Category
        })
        &&& post_g.channels@.last().id == fid
        &&& post_g.channels@.last().name@ == short_name_spec(repo)
        &&& post_g.channels@.last().kind == ChannelKind::Forum
        &&& post_g.channels@.last().parent == Some(cat)
        &&& post_db.projects@.len() == pre_db.projects@.len()
        &&& crate::store::project_updated_at(pre_db, post_db, idx)
        &&& post_db.projects@[idx].forum_channel_id@ == dec_str(fid as int)
        &&& post_db.projects@[idx].is_approved == pre_db.projects@[idx].is_approved
        &&& post_db.projects@[idx].guild_id == pre_db.projects@[idx].guild_id
        &&& post_db.projects@[idx].thread_id == pre_db.projects@[idx].thread_id
    })
}

/// Make sure the project's forum channel exists, reusing the persisted
/// identifier when it still resolves and otherwise recreating the forum
/// inside the shared category (creating that too if it is gone) and
/// persisting the fresh identifier.
pub fn ensure_forum_exists(g: &mut Guild, db: &mut Store, project: &Project, repo: &str) -> (r:
    Result<u64, Error>)
    requires
        old(g).wf(),
        old(db).wf(),
        old(g).next_id < u64::MAX - 2,
        old(db).has_project(lower_seq(repo@)),
    ensures
        final(g).wf(),
        final(db).wf(),
        final(g).next_id <= old(g).next_id + 2,
        r matches Ok(fid) && forum_post(
            *old(g),
            *old(db),
            *final(g),
            *final(db),
            *project,
            repo@,
            fid,
        ),
{
    let stored_ok = channel_exists(g, project.forum_channel_id.as_str());
    if stored_ok {
        let id = match parse_channel_id(project.forum_channel_id.as_str()) {
            Some(id) => id,
            None => 1,
        };
        proof {
            crate::find::lemma_extends_refl(g.channels@);
        }
        return Ok(id);
    }
    let category_id = match g.find_channel_by_name("GitHub") {
        Some(id) => id,
        None => g.create_channel(ChannelKind::Category, "GitHub", None),
    };
    let project_name = chars_to_string(&short_name(repo));
    let new_forum_id = g.create_channel(
        ChannelKind::Forum,
        project_name.as_str(),
        Some(category_id),
    );
    let rendered = render_id(new_forum_id);
    match update_forum_id(db, repo, rendered.as_str()) {
        Ok(()) => (),
        Err(e) => {
            return Err(e);
        }
    }
    proof {
        crate::find::lemma_find_first_is(
            g.channels@,
            chan_with_id(new_forum_id),
            g.channels@.len() - 1,
        );
        assert(g.channels@.subrange(0, old(g).channels@.len() as int) =~= old(g).channels@);
        lemma_find_first_props(old(g).channels@, chan_named("GitHub"@));
        if find_first(old(g).channels@, chan_named("GitHub"@)) < 0 {
            let at = old(g).channels@.len() as int;
            assert(g.channels@[at] == g.channels@.subrange(0, g.channels@.len() - 1)[at]);
        }
    }
    Ok(new_forum_id)
}

/// The activity-thread reconciliation in full: the persisted identifier is
/// reused exactly when it parses and the forum's thread of that name is the
/// very thread it names; otherwise a fresh thread is created pinned and
/// locked, seeded with one plain message, and the identifier persisted.
/// `s` is the identifier handed back, as persisted.
pub open spec fn thread_post(
    pre_g: Guild,
    pre_db: Store,
    post_g: Guild,
    post_db: Store,
    project: Project,
    repo: Seq<char>,
    forum_id: u64,
    s: Seq<char>,
) -> bool {
    let tf = find_first(pre_g.threads@, thread_named(forum_id, activity_thread_name_spec(repo)));
    let reusable = {
        &&& project.thread_id matches Some(t)
        &&& is_valid_id_str(t@)
        &&& tf >= 0
        &&& pre_g.threads@[tf].id as int == dec_val(t@)
    };
    &&& post_g.channels@ == pre_g.channels@
    &&& post_g.id == pre_g.id
    &&& post_g.self_permissions == pre_g.self_permissions
    &&& post_db.configs@ == pre_db.configs@
    &&& post_db.projects@.len() == pre_db.projects@.len()
    &&& is_valid_id_str(s)
    &&& (if reusable {
        &&& post_g == pre_g
        &&& post_db == pre_db
        &&& (project.thread_id matches Some(t) && s == t@)
    } else {
        let idx = pre_db.project_idx(lower_seq(repo));
        &&& s == dec_str(pre_g.next_id as int)
        &&& post_g.threads@.len() == pre_g.threads@.len() + 1
        &&& post_g.threads@.subrange(0, pre_g.threads@.len() as int) == pre_g.threads@
        &&& post_g.threads@.last().id == pre_g.next_id
        &&& post_g.threads@.last().parent_id == forum_id
        &&& post_g.threads@.last().name@ == activity_thread_name_spec(repo)
        &&& post_g.threads@.last().pinned == true
        &&& post_g.threads@.last().locked == true
        &&& post_g.next_id == pre_g.next_id + 1
        &&& post_g.posts@.len() == pre_g.posts@.len() + 1
        &&& post_g.posts@.subrange(0, pre_g.posts@.len() as int) == pre_g.posts@
        &&& post_g.posts@.last().channel_id == pre_g.next_id
        &&& post_g.posts@.last().embed == false
        &&& crate::store::project_updated_at(pre_db, post_db, idx)
        &&& (post_db.projects@[idx].thread_id matches Some(t) && t@ == dec_str(
            pre_g.next_id as int,
        ))
        &&& post_db.projects@[idx].is_approved == pre_db.projects@[idx].is_approved
        &&& post_db.projects@[idx].guild_id == pre_db.projects@[idx].guild_id
        &&& post_db.projects@[idx].forum_channel_id == pre_db.projects@[idx].forum_channel_id
    })
}

/// Resolve or create the project's single persistent activity thread,
/// pinned and locked on creation, and keep the persisted thread identifier
/// in step.
pub fn get_or_create_thread(g: &mut Guild, db: &mut Store, project: &Project, repo: &str,
    forum_id: u64) -> (r: Result<String, Error>)
    requires
        old(g).wf(),
        old(db).wf(),
        old(g).next_id < u64::MAX,
        old(db).has_project(lower_seq(repo@)),
    ensures
        final(g).wf(),
        final(db).wf(),
        final(g).next_id <= old(g).next_id + 1,
        r matches Ok(s) && thread_post(
            *old(g),
            *old(db),
            *final(g),
            *final(db),
            *project,
            repo@,
            forum_id,
            s@,
        ),
{
    let thread_name = activity_thread_name(repo);
    let mut reuse: Option<String> = None;
    match &project.thread_id {
        Some(tid_str) => {
            match parse_channel_id(tid_str.as_str()) {
                Some(tid) => {
                    match g.find_active_thread_by_name(forum_id, thread_name.as_str()) {
                        Some(found) => {
                            if found == tid {
                                reuse = Some(tid_str.clone());
                            }
                        }
                        None => (),
                    }
                }
                None => (),
            }
        }
        None => (),
    }
    match reuse {
        Some(s) => Ok(s),
        None => {
            let tid = g.create_forum_thread(
                forum_id,
                thread_name.as_str(),
                "Project activity thread. All events will be posted here.",
            );
            proof {
                crate::find::lemma_find_first_push(
                    old(g).threads@,
                    thread_with_id(tid),
                    g.threads@.last(),
                );
                lemma_find_first_props(old(g).threads@, thread_with_id(tid));
                if find_first(old(g).threads@, thread_with_id(tid)) >= 0 {
                    assert(false);
                }
                assert(g.threads@ =~= old(g).threads@.push(g.threads@.last()));
            }
            g.pin_and_lock_thread(tid);
            let rendered = render_id(tid);
            match update_thread_id(db, repo, rendered.as_str()) {
                Ok(()) => (),
                Err(e) => {
                    return Err(e);
                }
            }
            proof {
                assert(g.threads@.subrange(0, old(g).threads@.len() as int) =~= old(g).threads@);
                crate::ids::lemma_render_parse(tid);
            }
            Ok(rendered)
        }
    }
}

// ------------------------------------------------------------------
// Activity-thread embeds
// ------------------------------------------------------------------

pub open spec fn wf_conclusion(e: crate::events::WorkflowRunEvent) -> Seq<char> {
    crate::format::opt_str(e.workflow_run.conclusion, "unknown"@)
}

pub open spec fn wf_success(e: crate::events::WorkflowRunEvent) -> bool {
    wf_conclusion(e) == "success"@
}

pub open spec fn spec_activity_wf_title(e: crate::events::WorkflowRunEvent) -> Seq<char> {
    (if wf_success(e) {
        "✅"@
    } else {
        "❌"@
    }) + " "@ + crate::format::opt_str(e.workflow_run.name, "CI"@) + " "@ + wf_conclusion(e)
}

pub open spec fn spec_activity_wf_desc(e: crate::events::WorkflowRunEvent) -> Seq<char> {
    "Branch: `"@ + crate::format::opt_str(e.workflow_run.head_branch, "unknown"@)
        + "`\n[View Run]("@ + e.workflow_run.html_url@ + ")"@
}

pub open spec fn pr_bounty(e: crate::events::PullRequestEvent) -> bool {
    crate::events::has_label(e.pull_request.labels@, "bounty"@)
}

pub open spec fn spec_pr_action_text(e: crate::events::PullRequestEvent) -> Seq<char> {
    if e.action@ == "opened"@ {
        "opened"@
    } else if e.action@ == "labeled"@ {
        "labeled"@
    } else if e.action@ == "closed"@ && e.pull_request.merged == Some(true) {
        "merged"@
    } else if e.action@ == "closed"@ {
        "closed"@
    } else {
        e.action@
    }
}

pub open spec fn spec_activity_pr_title(e: crate::events::PullRequestEvent) -> Seq<char> {
    (if pr_bounty(e) {
        "🪙"@
    } else {
        "🧩"@
    }) + " PR #"@ + dec_str(e.pull_request.number as int) + " "@ + spec_pr_action_text(e)
}

pub open spec fn spec_activity_pr_desc(e: crate::events::PullRequestEvent) -> Seq<char> {
    "**"@ + e.pull_request.title@ + "**\nby @"@ + e.sender.login@ + "\n[View PR]("@
        + e.pull_request.html_url@ + ")"@
}

pub open spec fn issue_bounty(e: crate::events::IssueEvent) -> bool {
    crate::events::has_label(e.issue.labels@, "bounty"@)
}

pub open spec fn spec_issue_action_text(e: crate::events::IssueEvent) -> Seq<char> {
    if e.action@ == "opened"@ {
        "opened"@
    } else if e.action@ == "labeled"@ {
        "labeled"@
    } else if e.action@ == "closed"@ {
        "closed"@
    } else {
        e.action@
    }
}

pub open spec fn spec_activity_issue_title(e: crate::events::IssueEvent) -> Seq<char> {
    (if issue_bounty(e) {
        "🪙"@
    } else {
        "📋"@
    }) + " Issue #"@ + dec_str(e.issue.number as int) + " "@ + spec_issue_action_text(e)
}

pub open spec fn spec_activity_issue_desc(e: crate::events::IssueEvent) -> Seq<char> {
    "**"@ + e.issue.title@ + "**\nby @"@ + e.sender.login@ + "\n[View Issue]("@
        + e.issue.html_url@ + ")"@
}

pub open spec fn spec_activity_release_title(e: crate::events::ReleaseEvent) -> Seq<char> {
    "🚀 Release "@ + e.release.tag_name@
}

pub open spec fn spec_activity_release_desc(e: crate::events::ReleaseEvent) -> Seq<char> {
    crate::format::opt_str(e.release.body, Seq::empty()) + "\n\n[View Release]("@
        + e.release.html_url@ + ")"@
}

pub open spec fn spec_by_login(login: Seq<char>) -> Seq<char> {
    "by @"@ + login
}

fn by_login(login: &str) -> (r: String)
    ensures
        r@ == spec_by_login(login@),
{
    let mut s = "by @".to_owned();
    s.append(login);
    s
}

fn pr_action_text<'a>(e: &'a crate::events::PullRequestEvent) -> (r: &'a str)
    ensures
        r@ == spec_pr_action_text(*e),
{
    let merged = match e.pull_request.merged {
        Some(m) => m,
        None => false,
    };
    if str_eq(e.action.as_str(), "opened") {
        "opened"
    } else if str_eq(e.action.as_str(), "labeled") {
        "labeled"
    } else if str_eq(e.action.as_str(), "closed") && merged {
        "merged"
    } else if str_eq(e.action.as_str(), "closed") {
        "closed"
    } else {
        e.action.as_str()
    }
}

fn issue_action_text<'a>(e: &'a crate::events::IssueEvent) -> (r: &'a str)
    ensures
        r@ == spec_issue_action_text(*e),
{
    if str_eq(e.action.as_str(), "opened") {
        "opened"
    } else if str_eq(e.action.as_str(), "labeled") {
        "labeled"
    } else if str_eq(e.action.as_str(), "closed") {
        "closed"
    } else {
        e.action.as_str()
    }
}

/// The activity-thread step in full: an unknown event leaves the tenant
/// untouched; everything else appends exactly one embed to the given thread,
/// titled, colored and annotated by the event's kind and outcome.
pub open spec fn activity_post(pre_g: Guild, post_g: Guild, thread_id: u64, ev: ParsedEvent) -> bool {
    &&& (ev is Unknown ==> post_g == pre_g)
    &&& (!(ev is Unknown) ==> {
        &&& crate::guild::unchanged_tree(pre_g, post_g)
        &&& crate::guild::appended_post(pre_g.posts@, post_g.posts@, thread_id)
        &&& post_g.posts@.last().embed == true
        &&& match ev {
            ParsedEvent::WorkflowRun(e) => {
                &&& (post_g.posts@.last().title matches Some(t) && t@
                    == spec_activity_wf_title(e))
                &&& post_g.posts@.last().body@ == spec_activity_wf_desc(e)
                &&& post_g.posts@.last().color == (if wf_success(e) {
                    COLOR_SUCCESS
                } else {
                    COLOR_FAILURE
                })
            },
            ParsedEvent::PullRequest(e) => {
                &&& (post_g.posts@.last().title matches Some(t) && t@
                    == spec_activity_pr_title(e))
                &&& post_g.posts@.last().body@ == spec_activity_pr_desc(e)
                &&& post_g.posts@.last().color == (if pr_bounty(e) {
                    COLOR_BOUNTY
                } else {
                    COLOR_PR
                })
            },
            ParsedEvent::Issue(e) => {
                &&& (post_g.posts@.last().title matches Some(t) && t@
                    == spec_activity_issue_title(e))
                &&& post_g.posts@.last().body@ == spec_activity_issue_desc(e)
                &&& post_g.posts@.last().color == (if issue_bounty(e) {
                    COLOR_BOUNTY
                } else {
                    COLOR_ISSUE
                })
            },
            ParsedEvent::Release(e) => {
                &&& (post_g.posts@.last().title matches Some(t) && t@
                    == spec_activity_release_title(e))
                &&& post_g.posts@.last().body@ == spec_activity_release_desc(e)
                &&& post_g.posts@.last().color == COLOR_SUCCESS
                &&& (post_g.posts@.last().footer matches Some(f) && f@ == spec_by_login(
                    e.sender.login@,
                ))
            },
            ParsedEvent::Unknown => true,
        }
    })
}

/// Post one event into the project's activity thread as an embed colored by
/// its outcome; unknown events post nothing.
pub fn post_event_to_thread(g: &mut Guild, thread_id: u64, event: &ParsedEvent) -> (r: Result<
    (),
    Error,
>)
    requires
        old(g).wf(),
    ensures
        final(g).wf(),
        r is Ok,
        final(g).next_id == old(g).next_id,
        activity_post(*old(g), *final(g), thread_id, *event),
{
    match event {
        ParsedEvent::WorkflowRun(e) => {
            let conclusion: &str = match &e.workflow_run.conclusion {
                Some(c) => c.as_str(),
                None => "unknown",
            };
            let success = str_eq(conclusion, "success");
            let color = if success {
                COLOR_SUCCESS
            } else {
                COLOR_FAILURE
            };
            let mut title = if success {
                "✅".to_owned()
            } else {
                "❌".to_owned()
            };
            title.append(" ");
            match &e.workflow_run.name {
                Some(n) => title.append(n.as_str()),
                None => title.append("CI"),
            }
            title.append(" ");
            title.append(conclusion);
            let mut desc = "Branch: `".to_owned();
            match &e.workflow_run.head_branch {
                Some(b) => desc.append(b.as_str()),
                None => desc.append("unknown"),
            }
            desc.append("`\n[View Run](");
            desc.append(e.workflow_run.html_url.as_str());
            desc.append(")");
            g.send_message_with_embed(thread_id, title.as_str(), desc.as_str(), color, None);
        }
        ParsedEvent::PullRequest(e) => {
            let has_bounty = crate::events::labels_carry(&e.pull_request.labels, "bounty");
            let color = if has_bounty {
                COLOR_BOUNTY
            } else {
                COLOR_PR
            };
            let mut title = if has_bounty {
                "🪙".to_owned()
            } else {
                "🧩".to_owned()
            };
            title.append(" PR #");
            title.append(crate::strutil::u64_to_dec(e.pull_request.number).as_str());
            title.append(" ");
            title.append(pr_action_text(e));
            let mut desc = "**".to_owned();
            desc.append(e.pull_request.title.as_str());
            desc.append("**\nby @");
            desc.append(e.sender.login.as_str());
            desc.append("\n[View PR](");
            desc.append(e.pull_request.html_url.as_str());
            desc.append(")");
            g.send_message_with_embed(thread_id, title.as_str(), desc.as_str(), color, None);
        }
        ParsedEvent::Issue(e) => {
            let has_bounty = crate::events::labels_carry(&e.issue.labels, "bounty");
            let color = if has_bounty {
                COLOR_BOUNTY
            } else {
                COLOR_ISSUE
            };
            let mut title = if has_bounty {
                "🪙".to_owned()
            } else {
                "📋".to_owned()
            };
            title.append(" Issue #");
            title.append(crate::strutil::u64_to_dec(e.issue.number).as_str());
            title.append(" ");
            title.append(issue_action_text(e));
            let mut desc = "**".to_owned();
            desc.append(e.issue.title.as_str());
            desc.append("**\nby @");
            desc.append(e.sender.login.as_str());
            desc.append("\n[View Issue](");
            desc.append(e.issue.html_url.as_str());
            desc.append(")");
            g.send_message_with_embed(thread_id, title.as_str(), desc.as_str(), color, None);
        }
        ParsedEvent::Release(e) => {
            let mut title = "🚀 Release ".to_owned();
            title.append(e.release.tag_name.as_str());
            let mut desc = match &e.release.body {
                Some(b) => b.clone(),
                None => "".to_owned(),
            };
            desc.append("\n\n[View Release](");
            desc.append(e.release.html_url.as_str());
            desc.append(")");
            proof {
                reveal_strlit("");
            }
            let footer = by_login(e.sender.login.as_str());
            g.send_message_with_embed(
                thread_id,
                title.as_str(),
                desc.as_str(),
                COLOR_SUCCESS,
                Some(footer.as_str()),
            );
        }
        ParsedEvent::Unknown => (),
    }
    Ok(())
}

// ------------------------------------------------------------------
// Sidebar threads
// ------------------------------------------------------------------

/// The per-milestone sidebar thread an event belongs to.
pub open spec fn spec_sidebar_name(ev: ParsedEvent) -> Seq<char> {
    match ev {
        ParsedEvent::WorkflowRun(e) => if wf_success(e) {
            "✅ CI Passed"@
        } else {
            "❌ CI Failed"@
        },
        ParsedEvent::PullRequest(e) => if pr_bounty(e) {
            "🪙 PR with bounty"@
        } else if e.action@ == "opened"@ {
            "🧩 PR Opened"@
        } else {
            "🧩 PR Merged"@
        },
        ParsedEvent::Issue(e) => if issue_bounty(e) {
            "🪙 Issue with bounty"@
        } else {
            "📋 Other issues"@
        },
        ParsedEvent::Release(_) => "🚀 Release Published"@,
        ParsedEvent::Unknown => Seq::empty(),
    }
}

pub open spec fn spec_sidebar_title(ev: ParsedEvent) -> Seq<char> {
    match ev {
        ParsedEvent::WorkflowRun(e) => crate::format::opt_str(e.workflow_run.name, "CI"@)
            + " Run Details"@,
        ParsedEvent::PullRequest(e) => e.pull_request.title@,
        ParsedEvent::Issue(e) => e.issue.title@,
        ParsedEvent::Release(e) => "Release "@ + e.release.tag_name@,
        ParsedEvent::Unknown => Seq::empty(),
    }
}

pub open spec fn spec_sidebar_desc(ev: ParsedEvent) -> Seq<char> {
    match ev {
        ParsedEvent::WorkflowRun(e) => "**"@ + crate::format::opt_str(e.workflow_run.name, "CI"@)
            + "** - "@ + wf_conclusion(e) + "\nBranch: `"@ + crate::format::opt_str(
            e.workflow_run.head_branch,
            "unknown"@,
        ) + "`\n[View Run]("@ + e.workflow_run.html_url@ + ")"@,
        ParsedEvent::PullRequest(e) => (if e.action@ == "opened"@ {
            "Opened"@
        } else {
            "Merged"@
        }) + " by @"@ + e.sender.login@ + "\n[View PR]("@ + e.pull_request.html_url@ + ")"@,
        ParsedEvent::Issue(e) => "Opened by @"@ + e.sender.login@ + "\n[View Issue]("@
            + e.issue.html_url@ + ")"@,
        ParsedEvent::Release(e) => crate::format::opt_str(e.release.body, Seq::empty())
            + "\n\n[View Release]("@ + e.release.html_url@ + ")"@,
        ParsedEvent::Unknown => Seq::empty(),
    }
}

pub open spec fn spec_sidebar_color(ev: ParsedEvent) -> u32 {
    match ev {
        ParsedEvent::WorkflowRun(e) => if wf_success(e) {
            COLOR_SUCCESS
        } else {
            COLOR_FAILURE
        },
        ParsedEvent::PullRequest(e) => if pr_bounty(e) {
            COLOR_BOUNTY
        } else {
            COLOR_PR
        },
        ParsedEvent::Issue(e) => if issue_bounty(e) {
            COLOR_BOUNTY
        } else {
            COLOR_ISSUE
        },
        ParsedEvent::Release(_) => COLOR_SUCCESS,
        ParsedEvent::Unknown => 0,
    }
}

/// Reuse the milestone's sidebar thread by exact name under the forum,
/// appending the event's embed; create it locked (never pinned) seeded with
/// that embed when it does not exist yet.
/// The sidebar step in full: an unknown event changes nothing; otherwise the
/// milestone's thread is reused by exact name or created locked (never
/// pinned), and exactly one embed for the event lands in it.
pub open spec fn sidebar_post(pre_g: Guild, post_g: Guild, forum_id: u64, ev: ParsedEvent) -> bool {
    &&& (ev is Unknown ==> post_g == pre_g)
    &&& (!(ev is Unknown) ==> {
        &&& post_g.channels@ == pre_g.channels@
        &&& post_g.id == pre_g.id
        &&& post_g.self_permissions == pre_g.self_permissions
        &&& post_g.posts@.len() == pre_g.posts@.len() + 1
        &&& post_g.posts@.subrange(0, pre_g.posts@.len() as int) == pre_g.posts@
        &&& post_g.posts@.last().embed == true
        &&& (post_g.posts@.last().title matches Some(t) && t@ == spec_sidebar_title(ev))
        &&& post_g.posts@.last().body@ == spec_sidebar_desc(ev)
        &&& post_g.posts@.last().color == spec_sidebar_color(ev)
        &&& ({
            let tf = find_first(pre_g.threads@, thread_named(forum_id, spec_sidebar_name(ev)));
            if tf >= 0 {
                &&& post_g.threads@ == pre_g.threads@
                &&& post_g.next_id == pre_g.next_id
                &&& post_g.posts@.last().channel_id == pre_g.threads@[tf].id
            } else {
                &&& post_g.threads@.len() == pre_g.threads@.len() + 1
                &&& post_g.threads@.subrange(0, pre_g.threads@.len() as int) == pre_g.threads@
                &&& post_g.threads@.last().id == pre_g.next_id
                &&& post_g.threads@.last().parent_id == forum_id
                &&& post_g.threads@.last().name@ == spec_sidebar_name(ev)
                &&& post_g.threads@.last().locked == true
                &&& post_g.threads@.last().pinned == false
                &&& post_g.posts@.last().channel_id == pre_g.next_id
                &&& post_g.next_id == pre_g.next_id + 1
            }
        })
    })
}

pub fn manage_sidebar_thread(g: &mut Guild, forum_id: u64, event: &ParsedEvent) -> (r: Result<
    (),
    Error,
>)
    requires
        old(g).wf(),
        old(g).next_id < u64::MAX,
    ensures
        final(g).wf(),
        r is Ok,
        final(g).next_id <= old(g).next_id + 1,
        sidebar_post(*old(g), *final(g), forum_id, *event),
{
    let thread_name: String;
    let title: String;
    let desc: String;
    let color: u32;
    let footer: Option<String>;
    match event {
        ParsedEvent::WorkflowRun(e) => {
            let conclusion: &str = match &e.workflow_run.conclusion {
                Some(c) => c.as_str(),
                None => "unknown",
            };
            let success = str_eq(conclusion, "success");
            color = if success {
                COLOR_SUCCESS
            } else {
                COLOR_FAILURE
            };
            thread_name = if success {
                "✅ CI Passed".to_owned()
            } else {
                "❌ CI Failed".to_owned()
            };
            let name: &str = match &e.workflow_run.name {
                Some(n) => n.as_str(),
                None => "CI",
            };
            let branch: &str = match &e.workflow_run.head_branch {
                Some(b) => b.as_str(),
                None => "unknown",
            };
            let mut t = name.to_owned();
            t.append(" Run Details");
            title = t;
            let mut d = "**".to_owned();
            d.append(name);
            d.append("** - ");
            d.append(conclusion);
            d.append("\nBranch: `");
            d.append(branch);
            d.append("`\n[View Run](");
            d.append(e.workflow_run.html_url.as_str());
            d.append(")");
            desc = d;
            let mut f = "Branch: ".to_owned();
            f.append(branch);
            footer = Some(f);
        }
        ParsedEvent::PullRequest(e) => {
            let has_bounty = crate::events::labels_carry(&e.pull_request.labels, "bounty");
            color = if has_bounty {
                COLOR_BOUNTY
            } else {
                COLOR_PR
            };
            let opened = str_eq(e.action.as_str(), "opened");
            thread_name = if has_bounty {
                "🪙 PR with bounty".to_owned()
            } else if opened {
                "🧩 PR Opened".to_owned()
            } else {
                "🧩 PR Merged".to_owned()
            };
            title = e.pull_request.title.clone();
            let mut d = if opened {
                "Opened".to_owned()
            } else {
                "Merged".to_owned()
            };
            d.append(" by @");
            d.append(e.sender.login.as_str());
            d.append("\n[View PR](");
            d.append(e.pull_request.html_url.as_str());
            d.append(")");
            desc = d;
            footer = Some(by_login(e.sender.login.as_str()));
        }
        ParsedEvent::Issue(e) => {
            let has_bounty = crate::events::labels_carry(&e.issue.labels, "bounty");
            color = if has_bounty {
                COLOR_BOUNTY
            } else {
                COLOR_ISSUE
            };
            thread_name = if has_bounty {
                "🪙 Issue with bounty".to_owned()
            } else {
                "📋 Other issues".to_owned()
            };
            title = e.issue.title.clone();
            let mut d = "Opened by @".to_owned();
            d.append(e.sender.login.as_str());
            d.append("\n[View Issue](");
            d.append(e.issue.html_url.as_str());
            d.append(")");
            desc = d;
            footer = Some(by_login(e.sender.login.as_str()));
        }
        ParsedEvent::Release(e) => {
            color = COLOR_SUCCESS;
            thread_name = "🚀 Release Published".to_owned();
            let mut t = "Release ".to_owned();
            t.append(e.release.tag_name.as_str());
            title = t;
            let mut d = match &e.release.body {
                Some(b) => b.clone(),
                None => "".to_owned(),
            };
            proof {
                reveal_strlit("");
            }
            d.append("\n\n[View Release](");
            d.append(e.release.html_url.as_str());
            d.append(")");
            desc = d;
            footer = Some(by_login(e.sender.login.as_str()));
        }
        ParsedEvent::Unknown => {
            return Ok(());
        }
    }
    let footer_ref: Option<&str> = match &footer {
        Some(f) => Some(f.as_str()),
        None => None,
    };
    match g.find_active_thread_by_name(forum_id, thread_name.as_str()) {
        Some(tid) => {
            g.send_message_with_embed(tid, title.as_str(), desc.as_str(), color, footer_ref);
        }
        None => {
            let tid = g.create_forum_thread_with_embed(
                forum_id,
                thread_name.as_str(),
                title.as_str(),
                desc.as_str(),
                color,
                footer_ref,
            );
            proof {
                crate::find::lemma_find_first_push(
                    old(g).threads@,
                    thread_with_id(tid),
                    g.threads@.last(),
                );
                lemma_find_first_props(old(g).threads@, thread_with_id(tid));
                if find_first(old(g).threads@, thread_with_id(tid)) >= 0 {
                    assert(false);
                }
                assert(g.threads@ =~= old(g).threads@.push(g.threads@.last()));
            }
            g.lock_thread(tid);
            proof {
                assert(g.threads@.subrange(0, old(g).threads@.len() as int) =~= old(g).threads@);
            }
        }
    }
    Ok(())
}

// ------------------------------------------------------------------
// Announcements
// ------------------------------------------------------------------

pub open spec fn spec_announce_title(ev: ParsedEvent) -> Seq<char> {
    match ev {
        ParsedEvent::Release(e) => "🚀 New Release: "@ + e.release.tag_name@,
        ParsedEvent::PullRequest(e) => "🪙 Bounty PR "@ + (if e.action@ == "opened"@ {
            "Opened"@
        } else if e.action@ == "labeled"@ {
            "Labeled"@
        } else {
            "Merged"@
        }) + ": #"@ + dec_str(e.pull_request.number as int),
        ParsedEvent::Issue(e) => "🪙 Bounty Issue "@ + (if e.action@ == "labeled"@ {
            "Labeled"@
        } else {
            "Opened"@
        }) + ": #"@ + dec_str(e.issue.number as int),
        _ => Seq::empty(),
    }
}

pub open spec fn spec_announce_desc(ev: ParsedEvent) -> Seq<char> {
    match ev {
        ParsedEvent::Release(e) => crate::format::opt_str(e.release.body, Seq::empty())
            + "\n\n[View Release]("@ + e.release.html_url@ + ")"@,
        ParsedEvent::PullRequest(e) => spec_activity_pr_desc(e),
        ParsedEvent::Issue(e) => spec_activity_issue_desc(e),
        _ => Seq::empty(),
    }
}

pub open spec fn spec_announce_color(ev: ParsedEvent) -> u32 {
    match ev {
        ParsedEvent::Release(_) => COLOR_SUCCESS,
        _ => COLOR_BOUNTY,
    }
}

pub open spec fn spec_project_footer(name: Seq<char>) -> Seq<char> {
    "Project: "@ + name
}

/// Resolve the tenant's announcements channel by name, healing the stored
/// identifier on drift or recreating the channel when it is gone, then post
/// the announcement: every release, and bounty-labeled pull requests and
/// issues.
/// The announcements step in full: nothing happens for a project without a
/// tenant or a tenant without a configuration; otherwise the announcements
/// channel is found by substring or recreated, the configuration is healed
/// on drift, and the event's announcement (release always, bounty pull
/// requests and issues) is posted as an embed.
pub open spec fn announce_post(
    pre_g: Guild,
    pre_db: Store,
    post_g: Guild,
    post_db: Store,
    ev: ParsedEvent,
    project: Project,
) -> bool {
    &&& post_db.projects@ == pre_db.projects@
    &&& post_g.threads@ == pre_g.threads@
    &&& post_g.id == pre_g.id
    &&& post_g.self_permissions == pre_g.self_permissions
    &&& (project.guild_id@.len() == 0 ==> (post_g == pre_g && post_db == pre_db))
    &&& (project.guild_id@.len() > 0 && !pre_db.has_config(project.guild_id@) ==> (post_g == pre_g
        && post_db == pre_db))
    &&& (project.guild_id@.len() > 0 && pre_db.has_config(project.guild_id@) ==> ({
        let gid = project.guild_id@;
        let cs = pre_g.channels@;
        let conf = pre_db.config_at(gid);
        let fa = find_first(cs, crate::guild::chan_containing("announcements"@));
        let ann: u64 = if fa >= 0 {
            cs[fa].id
        } else {
            pre_g.next_id
        };
        &&& (if fa >= 0 {
            post_g.channels@ == cs && post_g.next_id == pre_g.next_id
        } else {
            &&& post_g.channels@.len() == cs.len() + 1
            &&& post_g.channels@.subrange(0, cs.len() as int) == cs
            &&& post_g.channels@.last().id == ann
            &&& post_g.channels@.last().name@ == "announcements"@
            &&& post_g.channels@.last().kind == ChannelKind::Text
            &&& post_g.next_id == pre_g.next_id + 1
        })
        &&& (if fa >= 0 && dec_str(ann as int) == conf.announcements_id@ {
            post_db.configs@ == pre_db.configs@
        } else {
            &&& post_db.has_config(gid)
            &&& post_db.config_at(gid).announcements_id@ == dec_str(ann as int)
            &&& post_db.config_at(gid).github_forum_id@ == conf.github_forum_id@
            &&& forall|g2: Seq<char>|
                g2 != gid ==> #[trigger] post_db.has_config(g2) == pre_db.has_config(g2) && (
                pre_db.has_config(g2) ==> post_db.config_at(g2) == pre_db.config_at(g2))
        })
        &&& (if crate::policy::spec_should_announce(ev) {
            &&& post_g.posts@.len() == pre_g.posts@.len() + 1
            &&& post_g.posts@.subrange(0, pre_g.posts@.len() as int) == pre_g.posts@
            &&& post_g.posts@.last().channel_id == ann
            &&& post_g.posts@.last().embed == true
            &&& (post_g.posts@.last().title matches Some(t) && t@ == spec_announce_title(ev))
            &&& post_g.posts@.last().body@ == spec_announce_desc(ev)
            &&& post_g.posts@.last().color == spec_announce_color(ev)
            &&& (post_g.posts@.last().footer matches Some(f) && f@ == spec_project_footer(
                project.name@,
            ))
        } else {
            post_g.posts@ == pre_g.posts@
        })
    }))
}

pub fn post_to_announcements(g: &mut Guild, db: &mut Store, event: &ParsedEvent, project:
    &Project) -> (r: Result<(), Error>)
    requires
        old(g).wf(),
        old(db).wf(),
        old(g).next_id < u64::MAX,
    ensures
        final(g).wf(),
        final(db).wf(),
        r is Ok,
        final(g).next_id <= old(g).next_id + 1,
        announce_post(*old(g), *old(db), *final(g), *final(db), *event, *project),
{
    if project.guild_id.as_str().unicode_len() == 0 {
        return Ok(());
    }
    let config = match get_config(db, project.guild_id.as_str()) {
        Some(c) => c,
        None => {
            return Ok(());
        }
    };
    let announce_channel: u64 = match g.find_channel_containing("announcements") {
        Some(id) => {
            let rendered = render_id(id);
            proof {
                lemma_find_first_props(
                    old(g).channels@,
                    crate::guild::chan_containing("announcements"@),
                );
            }
            if !str_eq(rendered.as_str(), config.announcements_id.as_str()) {
                crate::store::save_config(
                    db,
                    project.guild_id.as_str(),
                    rendered.as_str(),
                    config.github_forum_id.as_str(),
                );
            }
            id
        }
        None => {
            let id = g.create_channel(ChannelKind::Text, "announcements", None);
            let rendered = render_id(id);
            crate::store::save_config(
                db,
                project.guild_id.as_str(),
                rendered.as_str(),
                config.github_forum_id.as_str(),
            );
            id
        }
    };
    match event {
        ParsedEvent::Release(e) => {
            let mut title = "🚀 New Release: ".to_owned();
            title.append(e.release.tag_name.as_str());
            let mut desc = match &e.release.body {
                Some(b) => b.clone(),
                None => "".to_owned(),
            };
            proof {
                reveal_strlit("");
            }
            desc.append("\n\n[View Release](");
            desc.append(e.release.html_url.as_str());
            desc.append(")");
            let mut footer = "Project: ".to_owned();
            footer.append(project.name.as_str());
            g.send_message_with_embed(
                announce_channel,
                title.as_str(),
                desc.as_str(),
                COLOR_SUCCESS,
                Some(footer.as_str()),
            );
        }
        ParsedEvent::PullRequest(e) => {
            if crate::events::labels_carry(&e.pull_request.labels, "bounty") {
                let verb: &str = if str_eq(e.action.as_str(), "opened") {
                    "Opened"
                } else if str_eq(e.action.as_str(), "labeled") {
                    "Labeled"
                } else {
                    "Merged"
                };
                let mut title = "🪙 Bounty PR ".to_owned();
                title.append(verb);
                title.append(": #");
                title.append(crate::strutil::u64_to_dec(e.pull_request.number).as_str());
                let mut desc = "**".to_owned();
                desc.append(e.pull_request.title.as_str());
                desc.append("**\nby @");
                desc.append(e.sender.login.as_str());
                desc.append("\n[View PR](");
                desc.append(e.pull_request.html_url.as_str());
                desc.append(")");
                let mut footer = "Project: ".to_owned();
                footer.append(project.name.as_str());
                g.send_message_with_embed(
                    announce_channel,
                    title.as_str(),
                    desc.as_str(),
                    COLOR_BOUNTY,
                    Some(footer.as_str()),
                );
            }
        }
        ParsedEvent::Issue(e) => {
            if crate::events::labels_carry(&e.issue.labels, "bounty") {
                let verb: &str = if str_eq(e.action.as_str(), "labeled") {
                    "Labeled"
                } else {
                    "Opened"
                };
                let mut title = "🪙 Bounty Issue ".to_owned();
                title.append(verb);
                title.append(": #");
                title.append(crate::strutil::u64_to_dec(e.issue.number).as_str());
                let mut desc = "**".to_owned();
                desc.append(e.issue.title.as_str());
                desc.append("**\nby @");
                desc.append(e.sender.login.as_str());
                desc.append("\n[View Issue](");
                desc.append(e.issue.html_url.as_str());
                desc.append(")");
                let mut footer = "Project: ".to_owned();
                footer.append(project.name.as_str());
                g.send_message_with_embed(
                    announce_channel,
                    title.as_str(),
                    desc.as_str(),
                    COLOR_BOUNTY,
                    Some(footer.as_str()),
                );
            }
        }
        _ => (),
    }
    Ok(())
}

// ------------------------------------------------------------------
// The dispatcher
// ------------------------------------------------------------------

/// Route one inbound event: resolve its approved project, make sure the
/// forum and activity thread exist (repairing drift), and fan the event out
/// to the activity thread, the milestone sidebar and the announcements
/// channel as the policy directs. Unknown events and events for unlisted or
/// unapproved repositories change nothing.
#[verifier::rlimit(80)]
/// One decomposition of a dispatch run: the tenant and store states after
/// the forum step (`g1`, `db1`, forum `fid`), the activity-thread
/// reconciliation (`g2`, `db2`, thread `tid`), the activity post (`g3`) and
/// the sidebar step (`g4`), each step exactly as its own contract says and
/// each skipped step changing nothing.
pub open spec fn dispatch_steps(
    pre_g: Guild,
    pre_db: Store,
    post_g: Guild,
    post_db: Store,
    ev: ParsedEvent,
    g1: Guild,
    db1: Store,
    fid: u64,
    g2: Guild,
    db2: Store,
    tid: u64,
    g3: Guild,
    g4: Guild,
) -> bool {
    let repo_l = lower_seq(ev.spec_repo_full_name());
    let project = pre_db.project_at(repo_l);
    let logging = !crate::policy::spec_is_bot_actor(ev.spec_actor())
        && crate::policy::spec_should_log(ev);
    &&& forum_post(pre_g, pre_db, g1, db1, project, repo_l, fid)
    &&& (if logging {
        exists|s: Seq<char>|
            #[trigger] thread_post(g1, db1, g2, db2, project, repo_l, fid, s) && tid as int
                == dec_val(s)
    } else {
        g2 == g1 && db2 == db1
    })
    &&& (if logging {
        activity_post(g2, g3, tid, ev)
    } else {
        g3 == g2
    })
    &&& (if crate::policy::spec_should_post(ev) {
        sidebar_post(g3, g4, fid, ev)
    } else {
        g4 == g3
    })
    &&& (if crate::policy::spec_should_announce(ev) {
        announce_post(g4, db2, post_g, post_db, ev, project)
    } else {
        post_g == g4 && post_db == db2
    })
}

/// What one dispatch run does, whole: unknown events and events for
/// unlisted or unapproved repositories change nothing; every other event
/// runs the forum, activity, sidebar and announcement steps in order, each
/// exactly per its own contract, and nothing else.
pub open spec fn dispatch_post(
    pre_g: Guild,
    pre_db: Store,
    post_g: Guild,
    post_db: Store,
    ev: ParsedEvent,
) -> bool {
    let repo_l = lower_seq(ev.spec_repo_full_name());
    &&& (ev is Unknown ==> (post_g == pre_g && post_db == pre_db))
    &&& (!(ev is Unknown) && !(pre_db.has_project(repo_l) && pre_db.project_at(
        repo_l,
    ).is_approved) ==> (post_g == pre_g && post_db == pre_db))
    &&& (!(ev is Unknown) && pre_db.has_project(repo_l) && pre_db.project_at(repo_l).is_approved
        ==> exists|
        g1: Guild,
        db1: Store,
        fid: u64,
        g2: Guild,
        db2: Store,
        tid: u64,
        g3: Guild,
        g4: Guild,
    |
        #[trigger] dispatch_steps(
            pre_g,
            pre_db,
            post_g,
            post_db,
            ev,
            g1,
            db1,
            fid,
            g2,
            db2,
            tid,
            g3,
            g4,
        ))
}

#[verifier::spinoff_prover]
#[verifier::rlimit(100)]
pub fn dispatch(g: &mut Guild, db: &mut Store, event: &ParsedEvent) -> (r: Result<(), Error>)
    requires
        old(g).wf(),
        old(db).wf(),
        old(g).next_id < u64::MAX - 8,
    ensures
        final(g).wf(),
        final(db).wf(),
        r is Ok,
        final(g).id == old(g).id,
        final(g).self_permissions == old(g).self_permissions,
        crate::find::extends(old(g).channels@, final(g).channels@),
        crate::find::extends(old(g).posts@, final(g).posts@),
        final(db).projects@.len() == old(db).projects@.len(),
        dispatch_post(*old(g), *old(db), *final(g), *final(db), *event),
{
    proof {
        crate::find::lemma_extends_refl(old(g).channels@);
        crate::find::lemma_extends_refl(old(g).posts@);
    }
    let repo_str = match event.repo_full_name() {
        Some(rf) => rf,
        None => {
            return Ok(());
        }
    };
    let repo = chars_to_string(&lower_chars(&to_chars(repo_str)));
    proof {
        crate::store::lemma_lower_idempotent(repo_str@);
    }
    let project = match get_approved_project(db, repo.as_str()) {
        Some(p) => p,
        None => {
            return Ok(());
        }
    };
    let ghost g0 = *g;
    let ghost db0 = *db;
    let forum_id = match ensure_forum_exists(g, db, &project, repo.as_str()) {
        Ok(id) => id,
        Err(e) => {
            return Err(e);
        }
    };
    proof {
        assert(crate::find::extends(old(g).posts@, g.posts@)) by {
            assert(g.posts@.subrange(0, g.posts@.len() as int) =~= g.posts@);
        }
        if *db != db0 {
            crate::find::lemma_find_first_props(
                db0.projects@,
                crate::store::proj_with_repo(lower_seq(repo@)),
            );
            crate::store::lemma_update_keeps_wf(
                db0,
                *db,
                db0.project_idx(lower_seq(repo@)),
            );
        }
    }
    let ghost w_g1 = *g;
    let ghost w_db1 = *db;
    let ghost mut w_g2 = *g;
    let ghost mut w_db2 = *db;
    let ghost mut w_tid: u64 = 0;
    let ghost mut w_g3 = *g;
    let ghost repo_l = lower_seq(event.spec_repo_full_name());
    let actor: &str = match event.actor() {
        Some(a) => a,
        None => "",
    };
    let logging = !is_bot_actor(actor) && should_log(event);
    if logging {
        let ghost db1 = *db;
        let ghost gpre = *g;
        let tid_str = match get_or_create_thread(g, db, &project, repo.as_str(), forum_id) {
            Ok(s) => s,
            Err(e) => {
                return Err(e);
            }
        };
        proof {
            if *db != db1 {
                crate::find::lemma_find_first_props(
                    db1.projects@,
                    crate::store::proj_with_repo(lower_seq(repo@)),
                );
                crate::store::lemma_update_keeps_wf(
                    db1,
                    *db,
                    db1.project_idx(lower_seq(repo@)),
                );
            }
        }
        proof {
            assert(crate::find::extends(gpre.posts@, g.posts@)) by {
                assert(g.posts@.subrange(0, gpre.posts@.len() as int) =~= gpre.posts@);
            }
            crate::find::lemma_extends_trans(old(g).posts@, gpre.posts@, g.posts@);
            w_g2 = *g;
            w_db2 = *db;
        }
        let ghost gpre2 = *g;
        match parse_channel_id(tid_str.as_str()) {
            Some(tid) => {
                proof {
                    w_tid = tid;
                    assert(thread_post(
                        w_g1,
                        w_db1,
                        w_g2,
                        w_db2,
                        project,
                        repo_l,
                        forum_id,
                        tid_str@,
                    ));
                    assert(exists|sx: Seq<char>|
                        #[trigger] thread_post(w_g1, w_db1, w_g2, w_db2, project, repo_l, forum_id, sx)
                            && w_tid as int == dec_val(sx));
                }
                let _ = post_event_to_thread(g, tid, event);
                proof {
                    w_g3 = *g;
                    assert(crate::find::extends(gpre2.posts@, g.posts@)) by {
                        assert(g.posts@.subrange(0, gpre2.posts@.len() as int) =~= gpre2.posts@);
                    }
                    crate::find::lemma_extends_trans(old(g).posts@, gpre2.posts@, g.posts@);
                }
            }
            None => {
                proof {
                    assert(false);
                }
            }
        }
    }
    let ghost gs = *g;
    let ghost mut w_g4 = *g;
    if should_post(event) {
        let _ = manage_sidebar_thread(g, forum_id, event);
        proof {
            assert(crate::find::extends(gs.posts@, g.posts@)) by {
                assert(g.posts@.subrange(0, gs.posts@.len() as int) =~= gs.posts@);
            }
            crate::find::lemma_extends_trans(old(g).posts@, gs.posts@, g.posts@);
            w_g4 = *g;
        }
    }
    let ghost ga = *g;
    let ghost dba = *db;
    if should_announce(event) {
        let _ = post_to_announcements(g, db, event, &project);
        proof {
            assert(crate::find::extends(ga.posts@, g.posts@)) by {
                assert(g.posts@.subrange(0, ga.posts@.len() as int) =~= ga.posts@);
            }
            assert(crate::find::extends(ga.channels@, g.channels@)) by {
                assert(g.channels@.subrange(0, ga.channels@.len() as int) =~= ga.channels@);
            }
            crate::find::lemma_extends_trans(old(g).posts@, ga.posts@, g.posts@);
            crate::find::lemma_extends_trans(old(g).channels@, ga.channels@, g.channels@);
        }
    }
    proof {
        assert(dba == w_db2);
        assert(dispatch_steps(
            *old(g),
            *old(db),
            *g,
            *db,
            *event,
            w_g1,
            w_db1,
            forum_id,
            w_g2,
            w_db2,
            w_tid,
            w_g3,
            w_g4,
        ));
    }
    Ok(())
}

} // verus!
