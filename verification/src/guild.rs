//! A deterministic in-memory model of one tenant's slice of the destination
//! platform: its channels, threads, posted messages and the bot's effective
//! permission bitmask.
//!
//! The reconciliation engine and the administrative commands run against this
//! surface, and their contracts are stated over it. Identifiers are allocated
//! from a single counter, so channel and thread identifiers never collide and
//! never take the reserved value zero.

use vstd::prelude::*;

use crate::find::{find_first, lemma_find_first_is, lemma_find_first_none, lemma_find_first_props};
use crate::strutil::{contains_ci, contains_ci_spec, str_eq};

verus! {

#[derive(PartialEq, Eq, Structural, Clone, Copy)]
pub enum ChannelKind {
    Text,
    Category,
    Forum,
}

pub struct ChannelRec {
    pub id: u64,
    pub name: String,
    pub kind: ChannelKind,
    pub parent: Option<u64>,
}

pub struct ThreadRec {
    pub id: u64,
    pub parent_id: u64,
    pub name: String,
    pub pinned: bool,
    pub locked: bool,
}

pub struct PostRec {
    pub channel_id: u64,
    pub title: Option<String>,
    pub body: String,
    pub color: u32,
    pub footer: Option<String>,
    pub embed: bool,
}

pub struct Guild {
    pub id: u64,
    pub self_permissions: u64,
    pub next_id: u64,
    pub channels: Vec<ChannelRec>,
    pub threads: Vec<ThreadRec>,
    pub posts: Vec<PostRec>,
}

/// A channel named exactly this.
pub open spec fn chan_named(name: Seq<char>) -> spec_fn(ChannelRec) -> bool {
    |c: ChannelRec| c.name@ == name
}

/// A channel whose name contains this keyword, case-insensitively.
pub open spec fn chan_containing(kw: Seq<char>) -> spec_fn(ChannelRec) -> bool {
    |c: ChannelRec| contains_ci_spec(c.name@, kw)
}

/// A channel with this identifier.
pub open spec fn chan_with_id(id: u64) -> spec_fn(ChannelRec) -> bool {
    |c: ChannelRec| c.id == id
}

/// An active thread under this parent with exactly this name.
pub open spec fn thread_named(parent: u64, name: Seq<char>) -> spec_fn(ThreadRec) -> bool {
    |t: ThreadRec| t.parent_id == parent && t.name@ == name
}

pub open spec fn thread_with_id(id: u64) -> spec_fn(ThreadRec) -> bool {
    |t: ThreadRec| t.id == id
}

impl Guild {
    /// Identifiers are positive, below the allocation counter, and unique
    /// across channels and threads alike.
    pub open spec fn wf(&self) -> bool {
        &&& 1 <= self.next_id
        &&& forall|i: int|
            0 <= i < self.channels@.len() ==> 1 <= (#[trigger] self.channels@[i]).id
                < self.next_id
        &&& forall|i: int|
            0 <= i < self.threads@.len() ==> 1 <= (#[trigger] self.threads@[i]).id < self.next_id
        &&& forall|i: int, j: int|
            0 <= i < j < self.channels@.len() ==> (#[trigger] self.channels@[i]).id != (
            #[trigger] self.channels@[j]).id
        &&& forall|i: int, j: int|
            0 <= i < j < self.threads@.len() ==> (#[trigger] self.threads@[i]).id != (
            #[trigger] self.threads@[j]).id
        &&& forall|i: int, j: int|
            0 <= i < self.channels@.len() && 0 <= j < self.threads@.len() ==> (
            #[trigger] self.channels@[i]).id != (#[trigger] self.threads@[j]).id
    }

    /// An empty tenant with the given permission bitmask, allocating
    /// identifiers from `first_id`.
    pub fn new(id: u64, self_permissions: u64, first_id: u64) -> (g: Guild)
        requires
            first_id >= 1,
        ensures
            g.wf(),
            g.id == id,
            g.self_permissions == self_permissions,
            g.next_id == first_id,
            g.channels@.len() == 0,
            g.threads@.len() == 0,
            g.posts@.len() == 0,
    {
        Guild {
            id,
            self_permissions,
            next_id: first_id,
            channels: Vec::new(),
            threads: Vec::new(),
            posts: Vec::new(),
        }
    }

    /// The first channel with exactly this name, scanning in listing order.
    pub fn find_channel_by_name(&self, name: &str) -> (r: Option<u64>)
        ensures
            ({
                let f = find_first(self.channels@, chan_named(name@));
                if f >= 0 {
                    r == Some(self.channels@[f].id)
                } else {
                    r is None
                }
            }),
    {
        let n = self.channels.len();
        let mut i: usize = 0;
        while i < n
            invariant
                i <= n,
                n == self.channels@.len(),
                forall|k: int| 0 <= k < i ==> !chan_named(name@)((#[trigger] self.channels@[k])),
            decreases n - i,
        {
            if str_eq(self.channels[i].name.as_str(), name) {
                proof {
                    lemma_find_first_is(self.channels@, chan_named(name@), i as int);
                }
                return Some(self.channels[i].id);
            }
            i = i + 1;
        }
        proof {
            lemma_find_first_none(self.channels@, chan_named(name@));
        }
        None
    }

    /// The first channel whose name contains the keyword,
    /// case-insensitively, scanning in listing order.
    pub fn find_channel_containing(&self, keyword: &str) -> (r: Option<u64>)
        ensures
            ({
                let f = find_first(self.channels@, chan_containing(keyword@));
                if f >= 0 {
                    r == Some(self.channels@[f].id)
                } else {
                    r is None
                }
            }),
    {
        let n = self.channels.len();
        let mut i: usize = 0;
        while i < n
            invariant
                i <= n,
                n == self.channels@.len(),
                forall|k: int|
                    0 <= k < i ==> !chan_containing(keyword@)((#[trigger] self.channels@[k])),
            decreases n - i,
        {
            if contains_ci(self.channels[i].name.as_str(), keyword) {
                proof {
                    lemma_find_first_is(self.channels@, chan_containing(keyword@), i as int);
                }
                return Some(self.channels[i].id);
            }
            i = i + 1;
        }
        proof {
            lemma_find_first_none(self.channels@, chan_containing(keyword@));
        }
        None
    }

    /// The first active thread under `parent_id` named exactly `name`.
    pub fn find_active_thread_by_name(&self, parent_id: u64, name: &str) -> (r: Option<u64>)
        ensures
            ({
                let f = find_first(self.threads@, thread_named(parent_id, name@));
                if f >= 0 {
                    r == Some(self.threads@[f].id)
                } else {
                    r is None
                }
            }),
    {
        let n = self.threads.len();
        let mut i: usize = 0;
        while i < n
            invariant
                i <= n,
                n == self.threads@.len(),
                forall|k: int|
                    0 <= k < i ==> !thread_named(parent_id, name@)((#[trigger] self.threads@[k])),
            decreases n - i,
        {
            if self.threads[i].parent_id == parent_id && str_eq(self.threads[i].name.as_str(), name)
            {
                proof {
                    lemma_find_first_is(self.threads@, thread_named(parent_id, name@), i as int);
                }
                return Some(self.threads[i].id);
            }
            i = i + 1;
        }
        proof {
            lemma_find_first_none(self.threads@, thread_named(parent_id, name@));
        }
        None
    }

    /// Whether a channel with this identifier is present in the listing.
    pub fn channel_id_exists(&self, id: u64) -> (r: bool)
        ensures
            r == (find_first(self.channels@, chan_with_id(id)) >= 0),
    {
        let n = self.channels.len();
        let mut i: usize = 0;
        while i < n
            invariant
                i <= n,
                n == self.channels@.len(),
                forall|k: int| 0 <= k < i ==> !chan_with_id(id)((#[trigger] self.channels@[k])),
            decreases n - i,
        {
            if self.channels[i].id == id {
                proof {
                    lemma_find_first_is(self.channels@, chan_with_id(id), i as int);
                }
                return true;
            }
            i = i + 1;
        }
        proof {
            lemma_find_first_none(self.channels@, chan_with_id(id));
        }
        false
    }

    /// Create a channel of the given kind and name, optionally inside a
    /// category; everything else about the tenant is untouched.
    pub fn create_channel(&mut self, kind: ChannelKind, name: &str, parent: Option<u64>) -> (id:
        u64)
        requires
            old(self).wf(),
            old(self).next_id < u64::MAX,
        ensures
            final(self).wf(),
            appended_channel(*old(self), *final(self), id, name@, kind, parent),
    {
        let id = self.next_id;
        self.next_id = self.next_id + 1;
        self.channels.push(ChannelRec { id, name: name.to_owned(), kind, parent });
        proof {
            assert(self.channels@.subrange(0, self.channels@.len() - 1) =~= old(self).channels@);
        }
        id
    }

    fn push_thread(&mut self, parent_id: u64, name: &str, pinned: bool, locked: bool) -> (id: u64)
        requires
            old(self).wf(),
            old(self).next_id < u64::MAX,
        ensures
            final(self).wf(),
            appended_thread(*old(self), *final(self), id, parent_id, name@),
            final(self).threads@.last().pinned == pinned,
            final(self).threads@.last().locked == locked,
            final(self).posts@ == old(self).posts@,
    {
        let id = self.next_id;
        self.next_id = self.next_id + 1;
        self.threads.push(ThreadRec { id, parent_id, name: name.to_owned(), pinned, locked });
        proof {
            assert(self.threads@.subrange(0, self.threads@.len() - 1) =~= old(self).threads@);
        }
        id
    }

    /// Create a forum thread seeded with a plain first message.
    pub fn create_forum_thread(&mut self, parent_id: u64, name: &str, content: &str) -> (id: u64)
        requires
            old(self).wf(),
            old(self).next_id < u64::MAX,
        ensures
            final(self).wf(),
            appended_thread(*old(self), *final(self), id, parent_id, name@),
            final(self).threads@.last().pinned == false,
            final(self).threads@.last().locked == false,
            appended_post(old(self).posts@, final(self).posts@, id),
            final(self).posts@.last().embed == false,
            final(self).posts@.last().body@ == content@,
    {
        let id = self.push_thread(parent_id, name, false, false);
        self.posts.push(
            PostRec {
                channel_id: id,
                title: None,
                body: content.to_owned(),
                color: 0,
                footer: None,
                embed: false,
            },
        );
        proof {
            assert(self.posts@.subrange(0, self.posts@.len() - 1) =~= old(self).posts@);
        }
        id
    }

    /// Create a forum thread whose first message is a titled, colored,
    /// optionally footer-annotated embed.
    pub fn create_forum_thread_with_embed(
        &mut self,
        parent_id: u64,
        name: &str,
        title: &str,
        description: &str,
        color: u32,
        footer: Option<&str>,
    ) -> (id: u64)
        requires
            old(self).wf(),
            old(self).next_id < u64::MAX,
        ensures
            final(self).wf(),
            appended_thread(*old(self), *final(self), id, parent_id, name@),
            final(self).threads@.last().pinned == false,
            final(self).threads@.last().locked == false,
            appended_post(old(self).posts@, final(self).posts@, id),
            final(self).posts@.last().embed == true,
            final(self).posts@.last().title matches Some(t) && t@ == title@,
            final(self).posts@.last().body@ == description@,
            final(self).posts@.last().color == color,
            footer matches Some(s) ==> (final(self).posts@.last().footer matches Some(fs) && fs@
                == s@),
            footer is None ==> final(self).posts@.last().footer is None,
    {
        let id = self.push_thread(parent_id, name, false, false);
        let f = match footer {
            Some(s) => Some(s.to_owned()),
            None => None,
        };
        self.posts.push(
            PostRec {
                channel_id: id,
                title: Some(title.to_owned()),
                body: description.to_owned(),
                color,
                footer: f,
                embed: true,
            },
        );
        proof {
            assert(self.posts@.subrange(0, self.posts@.len() - 1) =~= old(self).posts@);
        }
        id
    }

    /// Post a plain message to an existing channel or thread.
    pub fn send_message(&mut self, channel_id: u64, content: &str)
        requires
            old(self).wf(),
        ensures
            final(self).wf(),
            unchanged_tree(*old(self), *final(self)),
            appended_post(old(self).posts@, final(self).posts@, channel_id),
            final(self).posts@.last().embed == false,
            final(self).posts@.last().body@ == content@,
    {
        self.posts.push(
            PostRec {
                channel_id,
                title: None,
                body: content.to_owned(),
                color: 0,
                footer: None,
                embed: false,
            },
        );
        proof {
            assert(self.posts@.subrange(0, self.posts@.len() - 1) =~= old(self).posts@);
        }
    }

    /// Post a titled, colored, optionally footer-annotated embed to an
    /// existing channel or thread.
    pub fn send_message_with_embed(
        &mut self,
        channel_id: u64,
        title: &str,
        description: &str,
        color: u32,
        footer: Option<&str>,
    )
        requires
            old(self).wf(),
        ensures
            final(self).wf(),
            unchanged_tree(*old(self), *final(self)),
            appended_post(old(self).posts@, final(self).posts@, channel_id),
            final(self).posts@.last().embed == true,
            final(self).posts@.last().title matches Some(t) && t@ == title@,
            final(self).posts@.last().body@ == description@,
            final(self).posts@.last().color == color,
            footer matches Some(s) ==> (final(self).posts@.last().footer matches Some(fs) && fs@
                == s@),
            footer is None ==> final(self).posts@.last().footer is None,
    {
        let f = match footer {
            Some(s) => Some(s.to_owned()),
            None => None,
        };
        self.posts.push(
            PostRec {
                channel_id,
                title: Some(title.to_owned()),
                body: description.to_owned(),
                color,
                footer: f,
                embed: true,
            },
        );
        proof {
            assert(self.posts@.subrange(0, self.posts@.len() - 1) =~= old(self).posts@);
        }
    }

    fn set_thread_flags(&mut self, thread_id: u64, pinned: bool, locked: bool)
        requires
            old(self).wf(),
            find_first(old(self).threads@, thread_with_id(thread_id)) >= 0,
        ensures
            final(self).wf(),
            flags_only_change(*old(self), *final(self), thread_id, pinned, locked),
    {
        let n = self.threads.len();
        let mut i: usize = 0;
        let ghost pre = *self;
        while i < n
            invariant
                i <= n,
                n == self.threads@.len(),
                *self == pre,
                pre == *old(self),
                pre.wf(),
                find_first(pre.threads@, thread_with_id(thread_id)) >= 0,
                forall|k: int| 0 <= k < i ==> (#[trigger] self.threads@[k]).id != thread_id,
            decreases n - i,
        {
            if self.threads[i].id == thread_id {
                proof {
                    lemma_find_first_is(pre.threads@, thread_with_id(thread_id), i as int);
                }
                self.threads[i].pinned = pinned;
                self.threads[i].locked = locked;
                return ;
            }
            i = i + 1;
        }
        proof {
            lemma_find_first_none(pre.threads@, thread_with_id(thread_id));
        }
    }

    /// Lock a thread against further outside posting; sidebar threads get
    /// this, never the pin, since one pin per forum is all the platform
    /// allows.
    pub fn lock_thread(&mut self, thread_id: u64)
        requires
            old(self).wf(),
            find_first(old(self).threads@, thread_with_id(thread_id)) >= 0,
        ensures
            final(self).wf(),
            flags_only_change(*old(self), *final(self), thread_id, false, true),
    {
        self.set_thread_flags(thread_id, false, true);
    }

    /// Pin and lock the project's single activity thread; the one pinned
    /// thread its forum will hold.
    pub fn pin_and_lock_thread(&mut self, thread_id: u64)
        requires
            old(self).wf(),
            find_first(old(self).threads@, thread_with_id(thread_id)) >= 0,
        ensures
            final(self).wf(),
            flags_only_change(*old(self), *final(self), thread_id, true, true),
    {
        self.set_thread_flags(thread_id, true, true);
    }

    /// How many embed messages have been posted into a channel or thread.
    pub fn count_embeds(&self, channel_id: u64) -> (r: usize)
        ensures
            r == count_embeds_spec(self.posts@, channel_id),
    {
        let n = self.posts.len();
        let mut count: usize = 0;
        let mut i: usize = 0;
        while i < n
            invariant
                i <= n,
                n == self.posts@.len(),
                count == count_embeds_spec(self.posts@.subrange(0, i as int), channel_id),
                count <= i,
            decreases n - i,
        {
            proof {
                assert(self.posts@.subrange(0, i + 1 as int).drop_last() =~= self.posts@.subrange(
                    0,
                    i as int,
                ));
            }
            if self.posts[i].embed && self.posts[i].channel_id == channel_id {
                count = count + 1;
            }
            i = i + 1;
        }
        proof {
            assert(self.posts@.subrange(0, n as int) =~= self.posts@);
        }
        count
    }
}

/// How many embeds a post log holds for one channel.
pub open spec fn count_embeds_spec(posts: Seq<PostRec>, channel_id: u64) -> int
    decreases posts.len(),
{
    if posts.len() == 0 {
        0
    } else {
        count_embeds_spec(posts.drop_last(), channel_id) + if posts.last().embed
            && posts.last().channel_id == channel_id {
            1int
        } else {
            0int
        }
    }
}

/// Exactly one channel was appended, with these fields; threads, posts,
/// permissions and the tenant identity are untouched.
pub open spec fn appended_channel(
    pre: Guild,
    post: Guild,
    id: u64,
    name: Seq<char>,
    kind: ChannelKind,
    parent: Option<u64>,
) -> bool {
    &&& id == pre.next_id
    &&& post.next_id == pre.next_id + 1
    &&& post.channels@.len() == pre.channels@.len() + 1
    &&& post.channels@.subrange(0, pre.channels@.len() as int) == pre.channels@
    &&& post.channels@.last().id == id
    &&& post.channels@.last().name@ == name
    &&& post.channels@.last().kind == kind
    &&& post.channels@.last().parent == parent
    &&& post.threads@ == pre.threads@
    &&& post.posts@ == pre.posts@
    &&& post.id == pre.id
    &&& post.self_permissions == pre.self_permissions
}

/// Exactly one thread was appended, with these fields; channels, permissions
/// and the tenant identity are untouched.
pub open spec fn appended_thread(
    pre: Guild,
    post: Guild,
    id: u64,
    parent_id: u64,
    name: Seq<char>,
) -> bool {
    &&& id == pre.next_id
    &&& post.next_id == pre.next_id + 1
    &&& post.threads@.len() == pre.threads@.len() + 1
    &&& post.threads@.subrange(0, pre.threads@.len() as int) == pre.threads@
    &&& post.threads@.last().id == id
    &&& post.threads@.last().parent_id == parent_id
    &&& post.threads@.last().name@ == name
    &&& post.channels@ == pre.channels@
    &&& post.id == pre.id
    &&& post.self_permissions == pre.self_permissions
}

/// Exactly one post was appended, aimed at this channel.
pub open spec fn appended_post(pre: Seq<PostRec>, post: Seq<PostRec>, channel_id: u64) -> bool {
    &&& post.len() == pre.len() + 1
    &&& post.subrange(0, pre.len() as int) == pre
    &&& post.last().channel_id == channel_id
}

/// The channel/thread tree and identity are exactly as before.
pub open spec fn unchanged_tree(pre: Guild, post: Guild) -> bool {
    &&& post.channels@ == pre.channels@
    &&& post.threads@ == pre.threads@
    &&& post.next_id == pre.next_id
    &&& post.id == pre.id
    &&& post.self_permissions == pre.self_permissions
}

/// Only the pinned/locked flags of the addressed thread changed.
pub open spec fn flags_only_change(
    pre: Guild,
    post: Guild,
    thread_id: u64,
    pinned: bool,
    locked: bool,
) -> bool {
    let f = find_first(pre.threads@, thread_with_id(thread_id));
    &&& post.channels@ == pre.channels@
    &&& post.posts@ == pre.posts@
    &&& post.next_id == pre.next_id
    &&& post.id == pre.id
    &&& post.self_permissions == pre.self_permissions
    &&& post.threads@.len() == pre.threads@.len()
    &&& forall|k: int|
        0 <= k < pre.threads@.len() && k != f ==> #[trigger] post.threads@[k] == pre.threads@[k]
    &&& (0 <= f < pre.threads@.len() ==> {
        &&& post.threads@[f].id == pre.threads@[f].id
        &&& post.threads@[f].parent_id == pre.threads@[f].parent_id
        &&& post.threads@[f].name@ == pre.threads@[f].name@
        &&& post.threads@[f].pinned == pinned
        &&& post.threads@[f].locked == locked
    })
}

} // verus!
