//! The optional per-project rule policy: an ordered list of
//! condition-to-action mappings, highest priority first, where the first
//! matching rule decides and no match drops the event.

use vstd::prelude::*;

use crate::find::{find_first, lemma_find_first_is, lemma_find_first_none};
use crate::strutil::str_eq;

verus! {

/// What an event must look like for a rule to apply; `None` means the rule
/// does not care.
pub struct RuleConditions {
    pub event_type: Option<String>,
    pub labels: Option<Vec<String>>,
    pub actor_whitelisted: Option<bool>,
    pub merged: Option<bool>,
}

/// What a matching rule asks for.
pub struct RuleActions {
    pub post_forum: bool,
    pub post_announce: bool,
    pub template: Option<String>,
}

/// The winning rule and its actions.
pub struct RuleMatch {
    pub actions: RuleActions,
    pub rule_id: String,
}

/// One prioritized rule of a project's policy.
pub struct Rule {
    pub id: String,
    pub conditions: RuleConditions,
    pub actions: RuleActions,
}

/// Some label in `have` reads exactly `name`.
pub open spec fn has_label_str(have: Seq<String>, name: Seq<char>) -> bool {
    exists|j: int| 0 <= j < have.len() && (#[trigger] have[j])@ == name
}

/// Every required label is among the event's labels.
pub open spec fn labels_include(have: Seq<String>, need: Seq<String>) -> bool {
    forall|i: int| 0 <= i < need.len() ==> has_label_str(have, (#[trigger] need[i])@)
}

/// Whether a rule's conditions accept an event, given the event's key, its
/// labels, the actor's whitelist standing and its merge status.
pub open spec fn cond_matches(
    c: RuleConditions,
    event_key: Option<String>,
    labels: Seq<String>,
    actor_whitelisted: bool,
    merged: bool,
) -> bool {
    &&& (c.event_type matches Some(t) ==> (event_key matches Some(k) && k@ == t@))
    &&& (c.labels matches Some(need) ==> labels_include(labels, need@))
    &&& (c.actor_whitelisted matches Some(b) ==> b == actor_whitelisted)
    &&& (c.merged matches Some(m) ==> m == merged)
}

/// The rule that fires for this event.
pub open spec fn rule_matching(
    event_key: Option<String>,
    labels: Seq<String>,
    actor_whitelisted: bool,
    merged: bool,
) -> spec_fn(Rule) -> bool {
    |r: Rule| cond_matches(r.conditions, event_key, labels, actor_whitelisted, merged)
}

fn labels_include_x(have: &Vec<String>, need: &Vec<String>) -> (r: bool)
    ensures
        r == labels_include(have@, need@),
{
    let n = need.len();
    let mut i: usize = 0;
    while i < n
        invariant
            i <= n,
            n == need@.len(),
            forall|k: int| 0 <= k < i ==> has_label_str(have@, (#[trigger] need@[k])@),
        decreases n - i,
    {
        let m = have.len();
        let mut j: usize = 0;
        let mut found = false;
        while j < m
            invariant
                j <= m,
                m == have@.len(),
                i < n,
                n == need@.len(),
                found ==> has_label_str(have@, need@[i as int]@),
                !found ==> forall|q: int| 0 <= q < j ==> (#[trigger] have@[q])@ != need@[i as int]@,
            decreases m - j,
        {
            if str_eq(have[j].as_str(), need[i].as_str()) {
                proof {
                    assert(have@[j as int]@ == need@[i as int]@);
                }
                found = true;
                j = m;
            } else {
                j = j + 1;
            }
        }
        if !found {
            proof {
                assert(!has_label_str(have@, need@[i as int]@));
            }
            return false;
        }
        i = i + 1;
    }
    true
}

fn matches_conditions(
    c: &RuleConditions,
    event_key: &Option<String>,
    labels: &Vec<String>,
    actor_whitelisted: bool,
    merged: bool,
) -> (r: bool)
    ensures
        r == cond_matches(*c, *event_key, labels@, actor_whitelisted, merged),
{
    match &c.event_type {
        Some(t) => {
            match event_key {
                Some(k) => {
                    if !str_eq(k.as_str(), t.as_str()) {
                        return false;
                    }
                }
                None => {
                    return false;
                }
            }
        }
        None => (),
    }
    match &c.labels {
        Some(need) => {
            if !labels_include_x(labels, need) {
                return false;
            }
        }
        None => (),
    }
    match c.actor_whitelisted {
        Some(b) => {
            if b != actor_whitelisted {
                return false;
            }
        }
        None => (),
    }
    match c.merged {
        Some(m) => {
            if m != merged {
                return false;
            }
        }
        None => (),
    }
    true
}

fn clone_actions(a: &RuleActions) -> (r: RuleActions)
    ensures
        r == *a,
{
    RuleActions {
        post_forum: a.post_forum,
        post_announce: a.post_announce,
        template: match &a.template {
            Some(t) => Some(t.clone()),
            None => None,
        },
    }
}

/// Walk the rules highest-priority first; the first whose conditions accept
/// the event wins, and no match drops the event.
pub fn evaluate_rules(
    rules: &Vec<Rule>,
    event_key: &Option<String>,
    labels: &Vec<String>,
    actor_whitelisted: bool,
    merged: bool,
) -> (r: Option<RuleMatch>)
    ensures
        ({
            let f = find_first(
                rules@,
                rule_matching(*event_key, labels@, actor_whitelisted, merged),
            );
            if f >= 0 {
                r matches Some(m) && m.rule_id == rules@[f].id && m.actions == rules@[f].actions
            } else {
                r is None
            }
        }),
{
    let n = rules.len();
    let mut i: usize = 0;
    while i < n
        invariant
            i <= n,
            n == rules@.len(),
            forall|k: int|
                0 <= k < i ==> !rule_matching(*event_key, labels@, actor_whitelisted, merged)(
                    (#[trigger] rules@[k]),
                ),
        decreases n - i,
    {
        if matches_conditions(&rules[i].conditions, event_key, labels, actor_whitelisted, merged) {
            proof {
                lemma_find_first_is(
                    rules@,
                    rule_matching(*event_key, labels@, actor_whitelisted, merged),
                    i as int,
                );
            }
            return Some(
                RuleMatch { actions: clone_actions(&rules[i].actions), rule_id: rules[i].id.clone() },
            );
        }
        i = i + 1;
    }
    proof {
        lemma_find_first_none(rules@, rule_matching(*event_key, labels@, actor_whitelisted, merged));
    }
    None
}

} // verus!
