//! Per-tenant fixed-window admission control for expensive administrative
//! commands.
//!
//! The state is a map from tenant identifier to the start of its current
//! window and the number of requests admitted within it. The policy is
//! advisory: it exists to keep command spam from piling write conflicts onto
//! the store, and losing the state on restart merely fails open.

use vstd::prelude::*;

use crate::strutil::str_eq;

verus! {

struct RlEntry {
    guild: String,
    window_start: u64,
    count: u32,
}

/// Per-tenant fixed-window rate limiter.
pub struct RateLimiter {
    entries: Vec<RlEntry>,
    window_secs: u64,
    max_requests: u32,
}

/// Seconds elapsed from `ws` to `now`, clamped below at zero.
pub open spec fn elapsed(now: u64, ws: u64) -> int {
    if now >= ws {
        now - ws
    } else {
        0
    }
}

impl RateLimiter {
    /// Tenant keys are unique.
    pub closed spec fn wf(&self) -> bool {
        forall|i: int, j: int|
            0 <= i < j < self.entries@.len() ==> (#[trigger] self.entries@[i]).guild@ != (
            #[trigger] self.entries@[j]).guild@
    }

    pub closed spec fn spec_window(&self) -> u64 {
        self.window_secs
    }

    pub closed spec fn spec_max(&self) -> u32 {
        self.max_requests
    }

    pub closed spec fn has_entry(&self, g: Seq<char>) -> bool {
        exists|i: int| 0 <= i < self.entries@.len() && (#[trigger] self.entries@[i]).guild@ == g
    }

    /// The (window start, admitted count) pair recorded for a tenant.
    pub closed spec fn entry_of(&self, g: Seq<char>) -> (u64, u32) {
        let i = choose|i: int|
            0 <= i < self.entries@.len() && (#[trigger] self.entries@[i]).guild@ == g;
        (self.entries@[i].window_start, self.entries@[i].count)
    }

    /// Create a limiter admitting `max_requests` per tenant within each
    /// window of `window_secs` seconds.
    pub fn new(window_secs: u64, max_requests: u32) -> (r: RateLimiter)
        ensures
            r.wf(),
            r.spec_window() == window_secs,
            r.spec_max() == max_requests,
            forall|g: Seq<char>| !r.has_entry(g),
    {
        RateLimiter { entries: Vec::new(), window_secs, max_requests }
    }

    /// Admit or refuse one request for `guild_id` arriving at time `now`,
    /// and update the tenant's window accordingly.
    #[verifier::rlimit(60)]
    pub fn check_at(&mut self, guild_id: &str, now: u64) -> (r: Result<(), u64>)
        requires
            old(self).wf(),
        ensures
            final(self).wf(),
            check_post(*old(self), *final(self), guild_id@, now, r),
    {
        let ghost pre = *self;
        let n = self.entries.len();
        let mut i: usize = 0;
        while i < n
            invariant
                i <= n,
                n == self.entries@.len(),
                *self == pre,
                pre == *old(self),
                pre.wf(),
                forall|k: int| 0 <= k < i ==> (#[trigger] self.entries@[k]).guild@ != guild_id@,
            decreases n - i,
        {
            if str_eq(self.entries[i].guild.as_str(), guild_id) {
                proof {
                    lemma_unique_entry(*self, guild_id@, i as int);
                }
                let ws = self.entries[i].window_start;
                let c = self.entries[i].count;
                let el: u64 = if now >= ws {
                    now - ws
                } else {
                    0
                };
                if el > self.window_secs {
                    self.entries[i].window_start = now;
                    self.entries[i].count = 1;
                    proof {
                        lemma_same_guilds_same_entries(pre, *self, guild_id@, i as int);
                        lemma_unique_entry(*self, guild_id@, i as int);
                    }
                    return Ok(());
                } else if c >= self.max_requests {
                    let wait0: u64 = if self.window_secs >= el {
                        self.window_secs - el
                    } else {
                        0
                    };
                    let wait: u64 = if wait0 < 1 {
                        1
                    } else {
                        wait0
                    };
                    return Err(wait);
                } else {
                    self.entries[i].count = c + 1;
                    proof {
                        lemma_same_guilds_same_entries(pre, *self, guild_id@, i as int);
                        lemma_unique_entry(*self, guild_id@, i as int);
                    }
                    return Ok(());
                }
            }
            i = i + 1;
        }
        self.entries.push(RlEntry { guild: guild_id.to_owned(), window_start: now, count: 1 });
        proof {
            let m = self.entries@.len() - 1;
            assert(self.entries@[m].guild@ == guild_id@);
            lemma_unique_entry(*self, guild_id@, m);
            assert forall|g2: Seq<char>| g2 != guild_id@ implies frame_ok(pre, *self, g2) by {
                if pre.has_entry(g2) {
                    let k = choose|k: int|
                        0 <= k < pre.entries@.len() && (#[trigger] pre.entries@[k]).guild@ == g2;
                    assert(self.entries@[k].guild@ == g2);
                    lemma_unique_entry(*self, g2, k);
                    lemma_unique_entry(pre, g2, k);
                }
                if self.has_entry(g2) {
                    let k = choose|k: int|
                        0 <= k < self.entries@.len() && (#[trigger] self.entries@[k]).guild@
                            == g2;
                    assert(k != m);
                    assert(pre.entries@[k].guild@ == g2);
                }
            }
        }
        Ok(())
    }

    /// Admit or refuse one request for `guild_id`, timed off the process
    /// clock. `Err(w)` asks the caller to wait `w` seconds.
    pub fn check(&mut self, guild_id: &str) -> (r: Result<(), u64>)
        requires
            old(self).wf(),
        ensures
            final(self).wf(),
            exists|now: u64| check_post(*old(self), *final(self), guild_id@, now, r),
    {
        let now = now_seconds();
        let r = self.check_at(guild_id, now);
        proof {
            assert(check_post(*old(self), *self, guild_id@, now, r));
        }
        r
    }

    /// Drop every entry whose window had already expired at time `now`.
    #[verifier::rlimit(60)]
    pub fn cleanup_at(&mut self, now: u64)
        requires
            old(self).wf(),
        ensures
            final(self).wf(),
            final(self).spec_window() == old(self).spec_window(),
            final(self).spec_max() == old(self).spec_max(),
            forall|g: Seq<char>|
                #[trigger] final(self).has_entry(g) <==> (old(self).has_entry(g) && elapsed(
                    now,
                    old(self).entry_of(g).0,
                ) <= old(self).spec_window()),
            forall|g: Seq<char>|
                #[trigger] final(self).has_entry(g) ==> final(self).entry_of(g) == old(
                    self,
                ).entry_of(g),
    {
        let ghost pre = *self;
        let mut kept: Vec<RlEntry> = Vec::new();
        let mut i: usize = 0;
        let n = self.entries.len();
        while i < n
            invariant
                i <= n,
                n == self.entries@.len(),
                *self == pre,
                pre == *old(self),
                pre.wf(),
                forall|k1: int, k2: int|
                    0 <= k1 < k2 < kept@.len() ==> (#[trigger] kept@[k1]).guild@ != (
                    #[trigger] kept@[k2]).guild@,
                forall|k: int|
                    0 <= k < kept@.len() ==> exists|j: int|
                        0 <= j < i && #[trigger] kept@[k] == self.entries@[j] && elapsed(
                            now,
                            self.entries@[j].window_start,
                        ) <= self.window_secs,
                forall|j: int|
                    0 <= j < i && elapsed(now, (#[trigger] self.entries@[j]).window_start)
                        <= self.window_secs ==> exists|k: int|
                        0 <= k < kept@.len() && #[trigger] kept@[k] == self.entries@[j],
            decreases n - i,
        {
            let ws = self.entries[i].window_start;
            let el: u64 = if now >= ws {
                now - ws
            } else {
                0
            };
            if el <= self.window_secs {
                let e = RlEntry {
                    guild: self.entries[i].guild.clone(),
                    window_start: ws,
                    count: self.entries[i].count,
                };
                proof {
                    assert(e == self.entries@[i as int]);
                    assert forall|k: int| 0 <= k < kept@.len() implies (#[trigger] kept@[k]).guild@
                        != e.guild@ by {
                        let j = choose|j: int|
                            0 <= j < i && #[trigger] kept@[k] == self.entries@[j] && elapsed(
                                now,
                                self.entries@[j].window_start,
                            ) <= self.window_secs;
                        assert(self.entries@[j].guild@ != self.entries@[i as int].guild@);
                    }
                }
                let ghost kept0 = kept@;
                kept.push(e);
                proof {
                    assert forall|j: int|
                        0 <= j < i + 1 && elapsed(
                            now,
                            (#[trigger] self.entries@[j]).window_start,
                        ) <= self.window_secs implies exists|k: int|
                        0 <= k < kept@.len() && #[trigger] kept@[k] == self.entries@[j] by {
                        if j < i {
                            let k = choose|k: int|
                                0 <= k < kept0.len() && #[trigger] kept0[k] == self.entries@[j];
                            assert(kept@[k] == self.entries@[j]);
                        } else {
                            assert(kept@[kept@.len() - 1] == self.entries@[j]);
                        }
                    }
                }
            }
            i = i + 1;
        }
        self.entries = kept;
        proof {
            assert forall|g: Seq<char>| #[trigger] self.has_entry(g) implies (pre.has_entry(g)
                && elapsed(now, pre.entry_of(g).0) <= pre.spec_window() && self.entry_of(g)
                == pre.entry_of(g)) by {
                let k = choose|k: int|
                    0 <= k < self.entries@.len() && (#[trigger] self.entries@[k]).guild@ == g;
                let j = choose|j: int|
                    0 <= j < n && #[trigger] self.entries@[k] == pre.entries@[j] && elapsed(
                        now,
                        pre.entries@[j].window_start,
                    ) <= pre.spec_window();
                assert(pre.entries@[j].guild@ == g);
                lemma_unique_entry(pre, g, j);
                lemma_unique_entry(*self, g, k);
            }
            assert forall|g: Seq<char>|
                pre.has_entry(g) && elapsed(now, pre.entry_of(g).0)
                    <= pre.spec_window() implies #[trigger] self.has_entry(g) by {
                let j = choose|j: int|
                    0 <= j < pre.entries@.len() && (#[trigger] pre.entries@[j]).guild@ == g;
                lemma_unique_entry(pre, g, j);
                let k = choose|k: int|
                    0 <= k < self.entries@.len() && #[trigger] self.entries@[k]
                        == pre.entries@[j];
                assert(self.entries@[k].guild@ == g);
            }
        }
    }

    /// Drop expired entries, timed off the process clock; called
    /// periodically so the map cannot grow without bound.
    pub fn cleanup(&mut self)
        requires
            old(self).wf(),
        ensures
            final(self).wf(),
            final(self).spec_window() == old(self).spec_window(),
            final(self).spec_max() == old(self).spec_max(),
            forall|g: Seq<char>|
                #[trigger] final(self).has_entry(g) ==> old(self).has_entry(g) && final(self).entry_of(g)
                    == old(self).entry_of(g),
    {
        let now = now_seconds();
        self.cleanup_at(now);
    }
}

/// The tenants not addressed by a call keep their entries untouched.
pub open spec fn frame_ok(pre: RateLimiter, post: RateLimiter, g2: Seq<char>) -> bool {
    &&& post.has_entry(g2) == pre.has_entry(g2)
    &&& (pre.has_entry(g2) ==> post.entry_of(g2) == pre.entry_of(g2))
}

/// Everything `check_at` promises about one admission decision: the result,
/// the addressed tenant's new window, and the other tenants' isolation.
pub open spec fn check_post(
    pre: RateLimiter,
    post: RateLimiter,
    g: Seq<char>,
    now: u64,
    r: Result<(), u64>,
) -> bool {
    let w = pre.spec_window() as int;
    let m = pre.spec_max();
    &&& post.spec_window() == pre.spec_window()
    &&& post.spec_max() == pre.spec_max()
    &&& post.has_entry(g)
    &&& forall|g2: Seq<char>| g2 != g ==> #[trigger] frame_ok(pre, post, g2)
    &&& if !pre.has_entry(g) {
        r is Ok && post.entry_of(g) == (now, 1u32)
    } else {
        let ws = pre.entry_of(g).0;
        let c = pre.entry_of(g).1;
        if elapsed(now, ws) > w {
            r is Ok && post.entry_of(g) == (now, 1u32)
        } else if c >= m {
            r matches Err(wait) && wait as int == (if w - elapsed(now, ws) >= 1 {
                w - elapsed(now, ws)
            } else {
                1
            }) && post.entry_of(g) == (ws, c)
        } else {
            r is Ok && post.entry_of(g) == (ws, (c + 1) as u32)
        }
    }
}

/// With unique keys, any index holding `g` is the index `entry_of` reads.
proof fn lemma_unique_entry(l: RateLimiter, g: Seq<char>, i: int)
    requires
        l.wf(),
        0 <= i < l.entries@.len(),
        l.entries@[i].guild@ == g,
    ensures
        l.has_entry(g),
        l.entry_of(g) == (l.entries@[i].window_start, l.entries@[i].count),
{
    assert(l.has_entry(g));
    let k = choose|k: int| 0 <= k < l.entries@.len() && (#[trigger] l.entries@[k]).guild@ == g;
    if k != i {
        assert(false);
    }
}

/// An in-place update at the key's own index leaves every other tenant's
/// entry as it was.
proof fn lemma_same_guilds_same_entries(pre: RateLimiter, post: RateLimiter, g: Seq<char>, i: int)
    requires
        pre.wf(),
        0 <= i < pre.entries@.len(),
        pre.entries@[i].guild@ == g,
        post.entries@.len() == pre.entries@.len(),
        post.spec_window() == pre.spec_window(),
        post.spec_max() == pre.spec_max(),
        forall|k: int|
            0 <= k < pre.entries@.len() && k != i ==> #[trigger] post.entries@[k]
                == pre.entries@[k],
        post.entries@[i].guild@ == g,
    ensures
        post.wf(),
        forall|g2: Seq<char>| g2 != g ==> #[trigger] frame_ok(pre, post, g2),
{
    assert forall|a: int, b: int|
        0 <= a < b < post.entries@.len() implies (#[trigger] post.entries@[a]).guild@ != (
    #[trigger] post.entries@[b]).guild@ by {
        assert(pre.entries@[a].guild@ != pre.entries@[b].guild@);
        assert(post.entries@[a].guild@ == pre.entries@[a].guild@);
        assert(post.entries@[b].guild@ == pre.entries@[b].guild@);
    }
    assert forall|g2: Seq<char>| g2 != g implies #[trigger] frame_ok(pre, post, g2) by {
        if pre.has_entry(g2) {
            let k = choose|k: int|
                0 <= k < pre.entries@.len() && (#[trigger] pre.entries@[k]).guild@ == g2;
            assert(k != i);
            assert(post.entries@[k].guild@ == g2);
            lemma_unique_entry(post, g2, k);
            lemma_unique_entry(pre, g2, k);
        }
        if post.has_entry(g2) {
            let k = choose|k: int|
                0 <= k < post.entries@.len() && (#[trigger] post.entries@[k]).guild@ == g2;
            assert(k != i);
            assert(pre.entries@[k].guild@ == g2);
        }
    }
}

/// An admission decision for one tenant leaves every other tenant's window
/// and count untouched, so tenants are limited independently.
pub proof fn lemma_tenant_isolation(
    pre: RateLimiter,
    post: RateLimiter,
    g: Seq<char>,
    now: u64,
    r: Result<(), u64>,
    g2: Seq<char>,
)
    requires
        check_post(pre, post, g, now, r),
        g2 != g,
    ensures
        post.has_entry(g2) == pre.has_entry(g2),
        pre.has_entry(g2) ==> post.entry_of(g2) == pre.entry_of(g2),
{
    assert(frame_ok(pre, post, g2));
}

/// After `i` checks for `g`, all within the first call's window, the tenant's
/// entry records that first call's time and the number of admitted requests,
/// capped at the limit.
proof fn lemma_window_run_state(
    states: Seq<RateLimiter>,
    results: Seq<Result<(), u64>>,
    times: Seq<u64>,
    g: Seq<char>,
    i: int,
)
    requires
        states.len() == times.len() + 1,
        results.len() == times.len(),
        !states[0].has_entry(g),
        states[0].spec_max() >= 1,
        forall|k: int|
            0 <= k < times.len() ==> #[trigger] check_post(
                states[k],
                states[k + 1],
                g,
                times[k],
                results[k],
            ),
        forall|k: int|
            0 <= k < times.len() ==> times[0] <= #[trigger] times[k] && elapsed(times[k], times[0])
                <= states[0].spec_window(),
        1 <= i <= times.len(),
    ensures
        states[i].spec_window() == states[0].spec_window(),
        states[i].spec_max() == states[0].spec_max(),
        states[i].has_entry(g),
        states[i].entry_of(g).0 == times[0],
        states[i].entry_of(g).1 as int == (if i < states[0].spec_max() as int {
            i
        } else {
            states[0].spec_max() as int
        }),
    decreases i,
{
    let k = i - 1;
    assert(check_post(states[k], states[k + 1], g, times[k], results[k]));
    assert(states[k + 1] == states[i]);
    if i == 1 {
        assert(elapsed(times[0], times[0]) == 0);
    } else {
        lemma_window_run_state(states, results, times, g, i - 1);
        assert(times[0] <= times[k] && elapsed(times[k], times[0]) <= states[0].spec_window());
    }
}

/// The fixed-window law: with limit `N = max` and window `W`, a tenant whose
/// first check opens a fresh window has exactly its first `N` checks within
/// `W` admitted; every later one inside the window is refused with a wait of
/// at least one second.
pub proof fn lemma_fixed_window_admits_first_max(
    states: Seq<RateLimiter>,
    results: Seq<Result<(), u64>>,
    times: Seq<u64>,
    g: Seq<char>,
)
    requires
        states.len() == times.len() + 1,
        results.len() == times.len(),
        !states[0].has_entry(g),
        states[0].spec_max() >= 1,
        forall|k: int|
            0 <= k < times.len() ==> #[trigger] check_post(
                states[k],
                states[k + 1],
                g,
                times[k],
                results[k],
            ),
        forall|k: int|
            0 <= k < times.len() ==> times[0] <= #[trigger] times[k] && elapsed(times[k], times[0])
                <= states[0].spec_window(),
    ensures
        forall|i: int|
            0 <= i < times.len() && i < states[0].spec_max() ==> #[trigger] results[i] is Ok,
        forall|i: int|
            0 <= i < times.len() && i >= states[0].spec_max() ==> (#[trigger] results[i] matches Err(
                w,
            ) && w >= 1),
{
    assert forall|i: int| 0 <= i < times.len() implies (if i < states[0].spec_max() as int {
        results[i] is Ok
    } else {
        results[i] matches Err(w) && w >= 1
    }) by {
        let k = i;
        assert(check_post(states[k], states[k + 1], g, times[k], results[k]));
        if i == 0 {
        } else {
            lemma_window_run_state(states, results, times, g, i);
            assert(times[0] <= times[k] && elapsed(times[k], times[0]) <= states[0].spec_window());
        }
    }
}

/// Relies on `std::time::SystemTime::now` read against `UNIX_EPOCH`: the
/// process clock in whole seconds. Nothing is assumed about its value.
#[verifier::external_body]
fn now_seconds() -> u64 {
    match std::time::SystemTime::now().duration_since(std::time::UNIX_EPOCH) {
        Ok(d) => d.as_secs(),
        Err(_) => 0,
    }
}

} // verus!
