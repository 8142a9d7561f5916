//! An in-memory model of the persistent store: governed projects and
//! per-tenant server configurations, with upsert semantics and repository
//! keys compared case-insensitively.
//!
//! Repository identifiers are normalized to lowercase once, at this
//! boundary, so mixed-case submissions can never create silent duplicates.
//! The production transport that carries these queries and mutations to a
//! remote store is outside the library; everything here is the store's
//! semantics.

use vstd::prelude::*;
use vstd::string::StrSliceExecFns;

use crate::error::Error;
use crate::find::{find_first, lemma_find_first_is, lemma_find_first_none};
use crate::strutil::{
    chars_to_string, contains_ci, contains_ci_spec, dec_str, eq_ci, lower_chars, lower_seq,
    short_name, short_name_spec, str_eq, to_chars, u64_to_dec,
};

verus! {

/// A governed repository and its destination identifiers.
pub struct Project {
    pub id: String,
    pub name: String,
    pub github_repo: String,
    pub forum_channel_id: String,
    pub thread_id: Option<String>,
    pub guild_id: String,
    pub is_approved: bool,
}

/// One tenant's destination mapping.
pub struct ServerConfig {
    pub guild_id: String,
    pub announcements_id: String,
    pub github_forum_id: String,
}

/// The store: all projects and all tenant configurations.
pub struct Store {
    pub projects: Vec<Project>,
    pub configs: Vec<ServerConfig>,
    pub next_key: u64,
}

/// The project keyed by this (lowercased) repository identifier.
pub open spec fn proj_with_repo(repo_l: Seq<char>) -> spec_fn(Project) -> bool {
    |p: Project| lower_seq(p.github_repo@) == repo_l
}

/// The configuration keyed by this tenant identifier.
pub open spec fn conf_with_guild(gid: Seq<char>) -> spec_fn(ServerConfig) -> bool {
    |c: ServerConfig| c.guild_id@ == gid
}

impl Store {
    /// Repository keys are stored lowercase and unique up to case; tenant
    /// keys are unique; an approved project always carries a forum identifier
    /// and its owning tenant.
    pub open spec fn wf(&self) -> bool {
        &&& forall|i: int|
            0 <= i < self.projects@.len() ==> lower_seq(
                (#[trigger] self.projects@[i]).github_repo@,
            ) == self.projects@[i].github_repo@
        &&& forall|i: int|
            0 <= i < self.projects@.len() && (#[trigger] self.projects@[i]).is_approved ==> (
            self.projects@[i].forum_channel_id@.len() > 0 && self.projects@[i].guild_id@.len()
                > 0)
        &&& forall|i: int, j: int|
            0 <= i < j < self.projects@.len() ==> lower_seq(
                (#[trigger] self.projects@[i]).github_repo@,
            ) != lower_seq((#[trigger] self.projects@[j]).github_repo@)
        &&& forall|i: int, j: int|
            0 <= i < j < self.configs@.len() ==> (#[trigger] self.configs@[i]).guild_id@ != (
            #[trigger] self.configs@[j]).guild_id@
    }

    pub open spec fn project_idx(&self, repo_l: Seq<char>) -> int {
        find_first(self.projects@, proj_with_repo(repo_l))
    }

    pub open spec fn has_project(&self, repo_l: Seq<char>) -> bool {
        self.project_idx(repo_l) >= 0
    }

    pub open spec fn project_at(&self, repo_l: Seq<char>) -> Project {
        self.projects@[self.project_idx(repo_l)]
    }

    pub open spec fn config_idx(&self, gid: Seq<char>) -> int {
        find_first(self.configs@, conf_with_guild(gid))
    }

    pub open spec fn has_config(&self, gid: Seq<char>) -> bool {
        self.config_idx(gid) >= 0
    }

    pub open spec fn config_at(&self, gid: Seq<char>) -> ServerConfig {
        self.configs@[self.config_idx(gid)]
    }

    /// An empty store.
    pub fn new() -> (s: Store)
        ensures
            s.wf(),
            s.projects@.len() == 0,
            s.configs@.len() == 0,
    {
        Store { projects: Vec::new(), configs: Vec::new(), next_key: 1 }
    }

    fn project_index(&self, repo: &str) -> (r: Option<usize>)
        ensures
            r matches Some(i) ==> 0 <= i as int == self.project_idx(lower_seq(repo@)) && (
            i as int) < self.projects@.len(),
            r is None ==> self.project_idx(lower_seq(repo@)) == -1,
    {
        let n = self.projects.len();
        let mut i: usize = 0;
        while i < n
            invariant
                i <= n,
                n == self.projects@.len(),
                forall|k: int|
                    0 <= k < i ==> !proj_with_repo(lower_seq(repo@))(
                        (#[trigger] self.projects@[k]),
                    ),
            decreases n - i,
        {
            if eq_ci(self.projects[i].github_repo.as_str(), repo) {
                proof {
                    lemma_find_first_is(self.projects@, proj_with_repo(lower_seq(repo@)), i as int);
                }
                return Some(i);
            }
            i = i + 1;
        }
        proof {
            lemma_find_first_none(self.projects@, proj_with_repo(lower_seq(repo@)));
        }
        None
    }

    fn config_index(&self, guild_id: &str) -> (r: Option<usize>)
        ensures
            r matches Some(i) ==> 0 <= i as int == self.config_idx(guild_id@) && (i as int)
                < self.configs@.len(),
            r is None ==> self.config_idx(guild_id@) == -1,
    {
        let n = self.configs.len();
        let mut i: usize = 0;
        while i < n
            invariant
                i <= n,
                n == self.configs@.len(),
                forall|k: int|
                    0 <= k < i ==> !conf_with_guild(guild_id@)((#[trigger] self.configs@[k])),
            decreases n - i,
        {
            if str_eq(self.configs[i].guild_id.as_str(), guild_id) {
                proof {
                    lemma_find_first_is(self.configs@, conf_with_guild(guild_id@), i as int);
                }
                return Some(i);
            }
            i = i + 1;
        }
        proof {
            lemma_find_first_none(self.configs@, conf_with_guild(guild_id@));
        }
        None
    }
}

fn clone_opt_string(o: &Option<String>) -> (r: Option<String>)
    ensures
        r == *o,
{
    match o {
        Some(s) => Some(s.clone()),
        None => None,
    }
}

fn clone_project(p: &Project) -> (r: Project)
    ensures
        r == *p,
{
    Project {
        id: p.id.clone(),
        name: p.name.clone(),
        github_repo: p.github_repo.clone(),
        forum_channel_id: p.forum_channel_id.clone(),
        thread_id: clone_opt_string(&p.thread_id),
        guild_id: p.guild_id.clone(),
        is_approved: p.is_approved,
    }
}

fn clone_config(c: &ServerConfig) -> (r: ServerConfig)
    ensures
        r == *c,
{
    ServerConfig {
        guild_id: c.guild_id.clone(),
        announcements_id: c.announcements_id.clone(),
        github_forum_id: c.github_forum_id.clone(),
    }
}

/// Register a repository in the pending state. Submitting a repository that
/// is already present, in any casing, is the distinguishable
/// already-exists conflict.
pub fn submit_project(db: &mut Store, github_repo: &str) -> (r: Result<String, Error>)
    requires
        old(db).wf(),
        old(db).next_key < u64::MAX,
    ensures
        final(db).wf(),
        old(db).has_project(lower_seq(github_repo@)) ==> (r matches Err(
            Error::ProjectAlreadyExists(_),
        ) && *final(db) == *old(db)),
        !old(db).has_project(lower_seq(github_repo@)) ==> {
            &&& r is Ok
            &&& final(db).configs@ == old(db).configs@
            &&& final(db).projects@.len() == old(db).projects@.len() + 1
            &&& final(db).projects@.subrange(0, old(db).projects@.len() as int) == old(
                db,
            ).projects@
            &&& final(db).projects@.last().github_repo@ == lower_seq(github_repo@)
            &&& final(db).projects@.last().name@ == short_name_spec(github_repo@)
            &&& final(db).projects@.last().forum_channel_id@ == Seq::<char>::empty()
            &&& final(db).projects@.last().thread_id is None
            &&& final(db).projects@.last().guild_id@ == Seq::<char>::empty()
            &&& final(db).projects@.last().is_approved == false
        },
{
    match db.project_index(github_repo) {
        Some(_) => Err(Error::ProjectAlreadyExists(github_repo.to_owned())),
        None => {
            let mut key = "proj-".to_owned();
            key.append(u64_to_dec(db.next_key).as_str());
            let stored_repo = chars_to_string(&lower_chars(&to_chars(github_repo)));
            let display = chars_to_string(&short_name(github_repo));
            let p = Project {
                id: key.clone(),
                name: display,
                github_repo: stored_repo,
                forum_channel_id: "".to_owned(),
                thread_id: None,
                guild_id: "".to_owned(),
                is_approved: false,
            };
            proof {
                lemma_lower_idempotent(github_repo@);
                reveal_strlit("");
                crate::find::lemma_find_first_props(
                    db.projects@,
                    proj_with_repo(lower_seq(github_repo@)),
                );
            }
            db.next_key = db.next_key + 1;
            db.projects.push(p);
            proof {
                assert(db.projects@.subrange(0, db.projects@.len() - 1) =~= old(db).projects@);
                assert(db.projects@.last().forum_channel_id@ =~= Seq::<char>::empty());
                assert(db.projects@.last().guild_id@ =~= Seq::<char>::empty());
                assert forall|i: int, j: int|
                    0 <= i < j < db.projects@.len() implies lower_seq(
                    (#[trigger] db.projects@[i]).github_repo@,
                ) != lower_seq((#[trigger] db.projects@[j]).github_repo@) by {
                    if j == db.projects@.len() - 1 {
                        assert(!proj_with_repo(lower_seq(github_repo@))(old(db).projects@[i]));
                    }
                }
            }
            Ok(key)
        }
    }
}

/// Folding to lowercase twice folds once.
pub proof fn lemma_lower_idempotent(s: Seq<char>)
    ensures
        lower_seq(lower_seq(s)) == lower_seq(s),
{
    assert(lower_seq(lower_seq(s)) =~= lower_seq(s));
}

/// Fetch a project by repository identifier, in any casing.
pub fn get_project(db: &Store, github_repo: &str) -> (r: Option<Project>)
    ensures
        r is Some <==> db.has_project(lower_seq(github_repo@)),
        r matches Some(p) ==> p == db.project_at(lower_seq(github_repo@)),
{
    match db.project_index(github_repo) {
        Some(i) => Some(clone_project(&db.projects[i])),
        None => None,
    }
}

/// Fetch a project only if it is approved: the lookup the event router uses.
pub fn get_approved_project(db: &Store, github_repo: &str) -> (r: Option<Project>)
    requires
        db.wf(),
    ensures
        r is Some <==> (db.has_project(lower_seq(github_repo@)) && db.project_at(
            lower_seq(github_repo@),
        ).is_approved),
        r matches Some(p) ==> p == db.project_at(lower_seq(github_repo@)) && p.is_approved
            && p.forum_channel_id@.len() > 0 && p.guild_id@.len() > 0,
{
    match db.project_index(github_repo) {
        Some(i) => {
            if db.projects[i].is_approved {
                Some(clone_project(&db.projects[i]))
            } else {
                None
            }
        }
        None => None,
    }
}

/// Everything except the project at `idx` is as before, and that project's
/// identity fields are kept.
pub open spec fn project_updated_at(pre: Store, post: Store, idx: int) -> bool {
    &&& post.configs@ == pre.configs@
    &&& post.projects@.len() == pre.projects@.len()
    &&& forall|k: int|
        0 <= k < pre.projects@.len() && k != idx ==> #[trigger] post.projects@[k]
            == pre.projects@[k]
    &&& post.projects@[idx].id == pre.projects@[idx].id
    &&& post.projects@[idx].name == pre.projects@[idx].name
    &&& post.projects@[idx].github_repo == pre.projects@[idx].github_repo
}

/// The update left repository keys in place, so uniqueness and lookups are
/// undisturbed.
pub proof fn lemma_update_keeps_wf(pre: Store, post: Store, idx: int)
    requires
        pre.wf(),
        0 <= idx < pre.projects@.len(),
        project_updated_at(pre, post, idx),
        post.projects@[idx].is_approved ==> (post.projects@[idx].forum_channel_id@.len() > 0
            && post.projects@[idx].guild_id@.len() > 0),
    ensures
        post.wf(),
        forall|rl: Seq<char>| #[trigger] post.project_idx(rl) == pre.project_idx(rl),
{
    assert forall|i: int, j: int|
        0 <= i < j < post.projects@.len() implies lower_seq(
        (#[trigger] post.projects@[i]).github_repo@,
    ) != lower_seq((#[trigger] post.projects@[j]).github_repo@) by {
        assert(post.projects@[i].github_repo@ == pre.projects@[i].github_repo@);
        assert(post.projects@[j].github_repo@ == pre.projects@[j].github_repo@);
    }
    assert forall|rl: Seq<char>| #[trigger] post.project_idx(rl) == pre.project_idx(rl) by {
        lemma_find_same(pre.projects@, post.projects@, proj_with_repo(rl));
    }
}

/// Two sequences whose elements satisfy a predicate alike have the same
/// first match.
proof fn lemma_find_same<T>(a: Seq<T>, b: Seq<T>, p: spec_fn(T) -> bool)
    requires
        a.len() == b.len(),
        forall|k: int| 0 <= k < a.len() ==> (p(#[trigger] a[k]) <==> p(#[trigger] b[k])),
    ensures
        find_first(a, p) == find_first(b, p),
    decreases a.len(),
{
    if a.len() > 0 {
        assert(p(a[0]) <==> p(b[0]));
        if !p(a[0]) {
            assert(forall|k: int|
                0 <= k < a.len() - 1 ==> #[trigger] a.drop_first()[k] == a[k + 1]);
            assert(forall|k: int|
                0 <= k < b.len() - 1 ==> #[trigger] b.drop_first()[k] == b[k + 1]);
            lemma_find_same(a.drop_first(), b.drop_first(), p);
        }
    }
}

/// Mark a project approved and record its resolved forum and tenant.
pub fn approve_project_with_forum(
    db: &mut Store,
    github_repo: &str,
    forum_channel_id: &str,
    guild_id: &str,
) -> (r: Result<(), Error>)
    requires
        old(db).wf(),
        forum_channel_id@.len() > 0,
        guild_id@.len() > 0,
    ensures
        final(db).wf(),
        r is Ok <==> old(db).has_project(lower_seq(github_repo@)),
        r matches Err(e) ==> (e matches Error::NotFound(_) && *final(db) == *old(db)),
        r is Ok ==> {
            let idx = old(db).project_idx(lower_seq(github_repo@));
            &&& project_updated_at(*old(db), *final(db), idx)
            &&& final(db).project_idx(lower_seq(github_repo@)) == idx
            &&& final(db).projects@[idx].is_approved == true
            &&& final(db).projects@[idx].forum_channel_id@ == forum_channel_id@
            &&& final(db).projects@[idx].guild_id@ == guild_id@
            &&& final(db).projects@[idx].thread_id == old(db).projects@[idx].thread_id
        },
{
    let ghost pre = *db;
    match db.project_index(github_repo) {
        Some(i) => {
            db.projects[i].is_approved = true;
            db.projects[i].forum_channel_id = forum_channel_id.to_owned();
            db.projects[i].guild_id = guild_id.to_owned();
            proof {
                lemma_update_keeps_wf(pre, *db, i as int);
            }
            Ok(())
        }
        None => Err(Error::NotFound("Project not found".to_owned())),
    }
}

/// Mark a project approved in place. Re-approval is an error of its own
/// kind, a missing project is not found, and a project that never had a
/// forum and tenant recorded cannot pass to the approved state: the data
/// model demands both of every approved project.
pub fn approve_project(db: &mut Store, github_repo: &str) -> (r: Result<(), Error>)
    requires
        old(db).wf(),
    ensures
        final(db).wf(),
        !old(db).has_project(lower_seq(github_repo@)) ==> (r matches Err(Error::NotFound(_))
            && *final(db) == *old(db)),
        old(db).has_project(lower_seq(github_repo@)) && old(db).project_at(
            lower_seq(github_repo@),
        ).is_approved ==> (r matches Err(Error::AlreadyApproved) && *final(db) == *old(db)),
        old(db).has_project(lower_seq(github_repo@)) && !old(db).project_at(
            lower_seq(github_repo@),
        ).is_approved ==> ({
            let idx = old(db).project_idx(lower_seq(github_repo@));
            if old(db).projects@[idx].forum_channel_id@.len() > 0 && old(db).projects@[
                idx
            ].guild_id@.len() > 0 {
                &&& r is Ok
                &&& project_updated_at(*old(db), *final(db), idx)
                &&& final(db).projects@[idx].is_approved == true
                &&& final(db).projects@[idx].forum_channel_id == old(db).projects@[
                    idx
                ].forum_channel_id
                &&& final(db).projects@[idx].guild_id == old(db).projects@[idx].guild_id
                &&& final(db).projects@[idx].thread_id == old(db).projects@[idx].thread_id
            } else {
                &&& (r matches Err(Error::InvalidPayload(m)) && m@
                    == "Project has no forum channel"@)
                &&& *final(db) == *old(db)
            }
        }),
{
    let ghost pre = *db;
    match db.project_index(github_repo) {
        Some(i) => {
            if db.projects[i].is_approved {
                Err(Error::AlreadyApproved)
            } else if db.projects[i].forum_channel_id.as_str().unicode_len() == 0
                || db.projects[i].guild_id.as_str().unicode_len() == 0 {
                Err(Error::InvalidPayload("Project has no forum channel".to_owned()))
            } else {
                db.projects[i].is_approved = true;
                proof {
                    lemma_update_keeps_wf(pre, *db, i as int);
                }
                Ok(())
            }
        }
        None => Err(Error::NotFound("Project not found".to_owned())),
    }
}

/// Remove a project entirely: denial of a submission.
pub fn deny_project(db: &mut Store, github_repo: &str) -> (r: Result<(), Error>)
    requires
        old(db).wf(),
    ensures
        final(db).wf(),
        r is Ok <==> old(db).has_project(lower_seq(github_repo@)),
        r matches Err(e) ==> (e matches Error::NotFound(m) && m@ == "Project not found"@
            && *final(db) == *old(db)),
        r is Ok ==> {
            &&& final(db).configs@ == old(db).configs@
            &&& final(db).projects@ == old(db).projects@.remove(
                old(db).project_idx(lower_seq(github_repo@)),
            )
            &&& !final(db).has_project(lower_seq(github_repo@))
        },
{
    let ghost pre = *db;
    match db.project_index(github_repo) {
        Some(i) => {
            self_remove_project(db, i);
            proof {
                let rl = lower_seq(github_repo@);
                pre.projects@.remove_ensures(i as int);
                crate::find::lemma_find_first_props(pre.projects@, proj_with_repo(rl));
                assert forall|k: int| 0 <= k < db.projects@.len() implies !proj_with_repo(rl)(
                    (#[trigger] db.projects@[k]),
                ) by {
                    if k < i {
                        assert(db.projects@[k] == pre.projects@[k]);
                    } else {
                        assert(db.projects@[k] == pre.projects@[k + 1]);
                    }
                }
                lemma_find_first_none(db.projects@, proj_with_repo(rl));
            }
            Ok(())
        }
        None => Err(Error::NotFound("Project not found".to_owned())),
    }
}

fn self_remove_project(db: &mut Store, i: usize)
    requires
        old(db).wf(),
        i < old(db).projects@.len(),
    ensures
        final(db).wf(),
        final(db).configs@ == old(db).configs@,
        final(db).projects@ == old(db).projects@.remove(i as int),
        final(db).next_key == old(db).next_key,
{
    let ghost pre = *db;
    db.projects.remove(i);
    proof {
        pre.projects@.remove_ensures(i as int);
        assert forall|a: int, b: int|
            0 <= a < b < db.projects@.len() implies lower_seq(
            (#[trigger] db.projects@[a]).github_repo@,
        ) != lower_seq((#[trigger] db.projects@[b]).github_repo@) by {
            let a0: int = if a < i {
                a
            } else {
                a + 1
            };
            let b0: int = if b < i {
                b
            } else {
                b + 1
            };
            assert(db.projects@[a] == pre.projects@[a0]);
            assert(db.projects@[b] == pre.projects@[b0]);
        }
    }
}

/// The projects of one tenant, in store order.
pub open spec fn guild_list_spec(s: Seq<Project>, gid: Seq<char>) -> Seq<Project>
    decreases s.len(),
{
    if s.len() == 0 {
        Seq::empty()
    } else {
        guild_list_spec(s.drop_last(), gid) + if s.last().guild_id@ == gid {
            seq![s.last()]
        } else {
            Seq::empty()
        }
    }
}

/// List every project recorded for a tenant.
pub fn list_projects_by_guild(db: &Store, guild_id: &str) -> (r: Vec<Project>)
    ensures
        r@ == guild_list_spec(db.projects@, guild_id@),
{
    let n = db.projects.len();
    let mut out: Vec<Project> = Vec::new();
    let mut i: usize = 0;
    while i < n
        invariant
            i <= n,
            n == db.projects@.len(),
            out@ == guild_list_spec(db.projects@.subrange(0, i as int), guild_id@),
        decreases n - i,
    {
        proof {
            assert(db.projects@.subrange(0, i + 1 as int).drop_last() =~= db.projects@.subrange(
                0,
                i as int,
            ));
        }
        if str_eq(db.projects[i].guild_id.as_str(), guild_id) {
            out.push(clone_project(&db.projects[i]));
            proof {
                assert(out@ =~= guild_list_spec(
                    db.projects@.subrange(0, i + 1 as int),
                    guild_id@,
                ));
            }
        } else {
            proof {
                assert(out@ =~= guild_list_spec(
                    db.projects@.subrange(0, i + 1 as int),
                    guild_id@,
                ));
            }
        }
        i = i + 1;
    }
    proof {
        assert(db.projects@.subrange(0, n as int) =~= db.projects@);
    }
    out
}

/// Overwrite a project's persisted forum identifier: the write the repair
/// path makes after recreating a forum.
pub fn update_forum_id(db: &mut Store, repo: &str, forum_id: &str) -> (r: Result<(), Error>)
    requires
        old(db).wf(),
        forum_id@.len() > 0,
    ensures
        final(db).wf(),
        r is Ok <==> old(db).has_project(lower_seq(repo@)),
        r matches Err(e) ==> (e matches Error::NotFound(_) && *final(db) == *old(db)),
        r is Ok ==> {
            let idx = old(db).project_idx(lower_seq(repo@));
            &&& project_updated_at(*old(db), *final(db), idx)
            &&& final(db).project_idx(lower_seq(repo@)) == idx
            &&& final(db).projects@[idx].forum_channel_id@ == forum_id@
            &&& final(db).projects@[idx].is_approved == old(db).projects@[idx].is_approved
            &&& final(db).projects@[idx].guild_id == old(db).projects@[idx].guild_id
            &&& final(db).projects@[idx].thread_id == old(db).projects@[idx].thread_id
        },
{
    let ghost pre = *db;
    match db.project_index(repo) {
        Some(i) => {
            db.projects[i].forum_channel_id = forum_id.to_owned();
            proof {
                lemma_update_keeps_wf(pre, *db, i as int);
            }
            Ok(())
        }
        None => Err(Error::NotFound("Project not found".to_owned())),
    }
}

/// Overwrite a project's persisted activity-thread identifier.
pub fn update_thread_id(db: &mut Store, repo: &str, thread_id: &str) -> (r: Result<(), Error>)
    requires
        old(db).wf(),
    ensures
        final(db).wf(),
        r is Ok <==> old(db).has_project(lower_seq(repo@)),
        r matches Err(e) ==> (e matches Error::NotFound(_) && *final(db) == *old(db)),
        r is Ok ==> {
            let idx = old(db).project_idx(lower_seq(repo@));
            &&& project_updated_at(*old(db), *final(db), idx)
            &&& final(db).project_idx(lower_seq(repo@)) == idx
            &&& final(db).projects@[idx].thread_id matches Some(t) && t@ == thread_id@
            &&& final(db).projects@[idx].is_approved == old(db).projects@[idx].is_approved
            &&& final(db).projects@[idx].guild_id == old(db).projects@[idx].guild_id
            &&& final(db).projects@[idx].forum_channel_id == old(db).projects@[
                idx
            ].forum_channel_id
        },
{
    let ghost pre = *db;
    match db.project_index(repo) {
        Some(i) => {
            db.projects[i].thread_id = Some(thread_id.to_owned());
            proof {
                lemma_update_keeps_wf(pre, *db, i as int);
            }
            Ok(())
        }
        None => Err(Error::NotFound("Project not found".to_owned())),
    }
}

/// Fetch a tenant's configuration.
pub fn get_config(db: &Store, guild_id: &str) -> (r: Option<ServerConfig>)
    ensures
        r is Some <==> db.has_config(guild_id@),
        r matches Some(c) ==> c == db.config_at(guild_id@),
{
    match db.config_index(guild_id) {
        Some(i) => Some(clone_config(&db.configs[i])),
        None => None,
    }
}

/// Insert or replace a tenant's configuration: upsert semantics, at most
/// one configuration per tenant.
pub fn save_config(db: &mut Store, guild_id: &str, announcements_id: &str, github_forum_id: &str)
    requires
        old(db).wf(),
    ensures
        final(db).wf(),
        final(db).projects@ == old(db).projects@,
        final(db).next_key == old(db).next_key,
        final(db).has_config(guild_id@),
        final(db).config_at(guild_id@).guild_id@ == guild_id@,
        final(db).config_at(guild_id@).announcements_id@ == announcements_id@,
        final(db).config_at(guild_id@).github_forum_id@ == github_forum_id@,
        forall|g2: Seq<char>|
            g2 != guild_id@ ==> #[trigger] final(db).has_config(g2) == old(db).has_config(g2) && (
            old(db).has_config(g2) ==> final(db).config_at(g2) == old(db).config_at(g2)),
{
    let ghost pre = *db;
    match db.config_index(guild_id) {
        Some(i) => {
            db.configs[i].announcements_id = announcements_id.to_owned();
            db.configs[i].github_forum_id = github_forum_id.to_owned();
            proof {
                crate::find::lemma_find_first_props(pre.configs@, conf_with_guild(guild_id@));
                assert forall|a: int, b: int|
                    0 <= a < b < db.configs@.len() implies (#[trigger] db.configs@[a]).guild_id@
                    != (#[trigger] db.configs@[b]).guild_id@ by {
                    assert(db.configs@[a].guild_id@ == pre.configs@[a].guild_id@);
                    assert(db.configs@[b].guild_id@ == pre.configs@[b].guild_id@);
                }
                lemma_find_same(pre.configs@, db.configs@, conf_with_guild(guild_id@));
                assert forall|g2: Seq<char>| g2 != guild_id@ implies #[trigger] db.has_config(g2)
                    == pre.has_config(g2) && (pre.has_config(g2) ==> db.config_at(g2)
                    == pre.config_at(g2)) by {
                    lemma_find_same(pre.configs@, db.configs@, conf_with_guild(g2));
                    if pre.has_config(g2) {
                        crate::find::lemma_find_first_props(pre.configs@, conf_with_guild(g2));
                        assert(pre.config_idx(g2) != i as int);
                    }
                }
            }
        }
        None => {
            let c = ServerConfig {
                guild_id: guild_id.to_owned(),
                announcements_id: announcements_id.to_owned(),
                github_forum_id: github_forum_id.to_owned(),
            };
            db.configs.push(c);
            proof {
                let m = db.configs@.len() - 1;
                crate::find::lemma_find_first_props(pre.configs@, conf_with_guild(guild_id@));
                assert forall|a: int, b: int|
                    0 <= a < b < db.configs@.len() implies (#[trigger] db.configs@[a]).guild_id@
                    != (#[trigger] db.configs@[b]).guild_id@ by {
                    if b < m {
                        assert(db.configs@[a] == pre.configs@[a]);
                        assert(db.configs@[b] == pre.configs@[b]);
                    } else {
                        assert(db.configs@[a] == pre.configs@[a]);
                        assert(!conf_with_guild(guild_id@)(pre.configs@[a]));
                    }
                }
                lemma_find_first_is(db.configs@, conf_with_guild(guild_id@), m);
                assert forall|g2: Seq<char>| g2 != guild_id@ implies #[trigger] db.has_config(g2)
                    == pre.has_config(g2) && (pre.has_config(g2) ==> db.config_at(g2)
                    == pre.config_at(g2)) by {
                    crate::find::lemma_find_first_props(pre.configs@, conf_with_guild(g2));
                    crate::find::lemma_find_first_push(
                        pre.configs@,
                        conf_with_guild(g2),
                        db.configs@[m],
                    );
                }
            }
        }
    }
}

/// In a well-formed store, a project's own (lowercase) key looks itself up.
pub proof fn lemma_project_self_lookup(db: Store, k: int)
    requires
        db.wf(),
        0 <= k < db.projects@.len(),
    ensures
        db.project_idx(db.projects@[k].github_repo@) == k,
{
    let rl = db.projects@[k].github_repo@;
    assert(lower_seq(rl) == rl);
    assert(proj_with_repo(rl)(db.projects@[k]));
    assert(forall|j: int| 0 <= j < k ==> !proj_with_repo(rl)((#[trigger] db.projects@[j])));
    lemma_find_first_is(db.projects@, proj_with_repo(rl), k);
}

/// The tenant listing is exactly the tenant's projects: every listed entry
/// is a stored project of that tenant, and every stored project of the
/// tenant is listed.
pub proof fn lemma_guild_list_elems(s: Seq<Project>, gid: Seq<char>)
    ensures
        guild_list_spec(s, gid).len() <= s.len(),
        forall|j: int|
            0 <= j < guild_list_spec(s, gid).len() ==> (#[trigger] guild_list_spec(s, gid)[j]).guild_id@
                == gid && exists|k: int| 0 <= k < s.len() && #[trigger] s[k] == guild_list_spec(
                s,
                gid,
            )[j],
        forall|k: int|
            0 <= k < s.len() && (#[trigger] s[k]).guild_id@ == gid ==> exists|j: int|
                0 <= j < guild_list_spec(s, gid).len() && #[trigger] guild_list_spec(s, gid)[j]
                    == s[k],
    decreases s.len(),
{
    if s.len() > 0 {
        lemma_guild_list_elems(s.drop_last(), gid);
        let l = guild_list_spec(s, gid);
        let lp = guild_list_spec(s.drop_last(), gid);
        assert(forall|k: int| 0 <= k < s.len() - 1 ==> #[trigger] s.drop_last()[k] == s[k]);
        assert forall|j: int| 0 <= j < l.len() implies (#[trigger] l[j]).guild_id@ == gid && exists|
            k: int,
        | 0 <= k < s.len() && #[trigger] s[k] == l[j] by {
            if j < lp.len() {
                assert(l[j] == lp[j]);
                let k = choose|k: int| 0 <= k < s.drop_last().len() && #[trigger] s.drop_last()[k]
                    == lp[j];
                assert(s[k] == l[j]);
            } else {
                assert(s.last().guild_id@ == gid);
                assert(l[j] == s.last());
                assert(s[s.len() - 1] == l[j]);
            }
        }
        assert forall|k: int| 0 <= k < s.len() && (#[trigger] s[k]).guild_id@ == gid implies exists|
            j: int,
        | 0 <= j < l.len() && #[trigger] l[j] == s[k] by {
            if k < s.len() - 1 {
                assert(s.drop_last()[k] == s[k]);
                let j = choose|j: int| 0 <= j < lp.len() && #[trigger] lp[j] == s.drop_last()[k];
                assert(l[j] == s[k]);
            } else {
                assert(l[l.len() - 1] == s[k]);
            }
        }
    }
}

/// Classify a store mutation's reported outcome: success carries an
/// optional row key; failure is the already-exists conflict when the
/// store's message says so (in any casing), and a malformed-payload
/// rejection otherwise.
pub fn parse_mutation_result(success: bool, id: Option<String>, error: Option<String>) -> (r:
    Result<Option<String>, Error>)
    ensures
        success ==> (r matches Ok(v) && v == id),
        !success ==> (r matches Err(e) && match error {
            Some(msg) => {
                if contains_ci_spec(msg@, "already exists"@) {
                    e matches Error::ProjectAlreadyExists(m) && m@ == msg@
                } else {
                    e matches Error::InvalidPayload(m) && m@ == msg@
                }
            },
            None => e matches Error::InvalidPayload(m) && m@ == "Unknown error"@,
        }),
{
    if success {
        Ok(id)
    } else {
        let msg = match error {
            Some(m) => m,
            None => "Unknown error".to_owned(),
        };
        proof {
            reveal_strlit("Unknown error");
            reveal_strlit("already exists");
        }
        if contains_ci(msg.as_str(), "already exists") {
            Err(Error::ProjectAlreadyExists(msg))
        } else {
            Err(Error::InvalidPayload(msg))
        }
    }
}

} // verus!
