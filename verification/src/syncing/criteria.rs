//! Whether a member meets the criteria of a sync action.
//!
//! The answer is stated as `criteria_met`: an item is met according to the
//! member's connections and the connection metadata, an item that names
//! other actions is met according to how many of them are met, and an
//! action is met according to how many of its items are. A cache of items
//! already found met may spare their evaluation; it changes no answer while
//! every entry it holds as met is met.
use vstd::prelude::*;
use crate::model::connection::{Connection, ConnectionKind, find_kind, same_kind};
use crate::model::connection;
use crate::model::hakuid::HakuId;
use crate::model::sync_action::{CriteriaItem, Quantifier, SyncAction, quantifier_minimum};
use crate::syncing::{ConnectionMetadata, PatreonPledge, RobloxMembership};

verus! {

/// The items of a member's sync already evaluated: for an action's id and
/// an item's index, whether the item was met. The entries are kept as a
/// `Vec` of triples, one per key, whose contents vstd specifies exactly,
/// rather than a `HashMap` keyed by pairs: vstd's specification of a
/// `HashMap` holds only for key types that obey its key model, which it
/// grants to integers, `bool` and boxes of them, not to tuples.
#[derive(Debug)]
pub struct CriteriaCache {
    entries: Vec<(u128, usize, bool)>,
}

/// The first entry at or after `i` for the action `id` and the item `k`.
pub open spec fn cache_index_from(s: Seq<(u128, usize, bool)>, id: u128, k: int, i: int) -> Option<int>
    decreases s.len() - i,
{
    if i < 0 || i >= s.len() {
        None
    } else if s[i].0 == id && s[i].1 == k {
        Some(i)
    } else {
        cache_index_from(s, id, k, i + 1)
    }
}

impl CriteriaCache {
    /// What the cache holds for the action `id` and the item `k`.
    pub closed spec fn lookup(&self, id: u128, k: int) -> Option<bool> {
        match cache_index_from(self.entries@, id, k, 0) {
            Some(i) => Some(self.entries@[i].2),
            None => None,
        }
    }

    /// The cache as a table from an action's id and an item's index to
    /// whether the item was met.
    pub closed spec fn table(&self) -> Map<(u128, int), bool> {
        Map::new(
            |key: (u128, int)| self.lookup(key.0, key.1) is Some,
            |key: (u128, int)| self.lookup(key.0, key.1).unwrap(),
        )
    }

    /// An empty cache.
    pub fn new() -> (r: CriteriaCache)
        ensures
            forall|id: u128, k: int| r.lookup(id, k).is_none(),
            r.table() == Map::<(u128, int), bool>::empty(),
    {
        let r = CriteriaCache { entries: Vec::new() };
        assert(r.table() =~= Map::<(u128, int), bool>::empty());
        r
    }

    fn find(&self, id: u128, k: usize) -> (r: Option<usize>)
        ensures
            match r {
                Some(i) => cache_index_from(self.entries@, id, k as int, 0) == Some(i as int)
                    && (i as int) < self.entries@.len(),
                None => cache_index_from(self.entries@, id, k as int, 0).is_none(),
            },
    {
        let len = self.entries.len();
        let mut i: usize = 0;
        while i < len
            invariant
                i <= len,
                len == self.entries@.len(),
                cache_index_from(self.entries@, id, k as int, 0) == cache_index_from(
                    self.entries@,
                    id,
                    k as int,
                    i as int,
                ),
            decreases len - i,
        {
            if self.entries[i].0 == id && self.entries[i].1 == k {
                return Some(i);
            }
            i = i + 1;
        }
        None
    }

    /// What the cache holds for the action `id` and the item `k`.
    pub fn get(&self, id: HakuId, k: usize) -> (r: Option<bool>)
        ensures
            r == self.lookup(id.value, k as int),
            r == table_get(self.table(), id.value, k as int),
    {
        match self.find(id.value, k) {
            Some(i) => Some(self.entries[i].2),
            None => None,
        }
    }

    /// Records `met` for the action `id` and the item `k`.
    pub fn insert(&mut self, id: HakuId, k: usize, met: bool)
        ensures
            final(self).table() == old(self).table().insert((id.value, k as int), met),
            final(self).lookup(id.value, k as int) == Some(met),
            forall|other: u128, j: int|
                !(other == id.value && j == k) ==> #[trigger] final(self).lookup(other, j) == old(self).lookup(
                    other,
                    j,
                ),
    {
        let ghost old_entries = self.entries@;
        proof { lemma_cache_index_from(old_entries, id.value, k as int, 0); }
        match self.find(id.value, k) {
            Some(i) => {
                self.entries.set(i, (id.value, k, met));
                assert forall|other: u128, j: int| !(other == id.value && j == k) implies #[trigger] self.lookup(
                    other,
                    j,
                ) == old(self).lookup(other, j) by {
                    lemma_cache_index_from(old_entries, other, j, 0);
                    lemma_cache_index_from(self.entries@, other, j, 0);
                    lemma_cache_index_unique(old_entries, self.entries@, other, j, i as int);
                }
                proof {
                    lemma_cache_index_from(self.entries@, id.value, k as int, 0);
                    lemma_cache_index_unique(old_entries, self.entries@, id.value, k as int, i as int);
                }
            },
            None => {
                self.entries.push((id.value, k, met));
                assert forall|other: u128, j: int| !(other == id.value && j == k) implies #[trigger] self.lookup(
                    other,
                    j,
                ) == old(self).lookup(other, j) by {
                    lemma_cache_index_from(old_entries, other, j, 0);
                    lemma_cache_index_from(self.entries@, other, j, 0);
                    lemma_cache_index_push(old_entries, self.entries@, other, j);
                }
                proof {
                    lemma_cache_index_from(self.entries@, id.value, k as int, 0);
                    lemma_cache_index_push(old_entries, self.entries@, id.value, k as int);
                }
            },
        }
        assert(self.table() =~= old(self).table().insert((id.value, k as int), met)) by {
            assert forall|key: (u128, int)| #[trigger] self.table().contains_key(key) == old(self).table().insert(
                (id.value, k as int),
                met,
            ).contains_key(key) by {
                if !(key.0 == id.value && key.1 == k) {
                    assert(self.lookup(key.0, key.1) == old(self).lookup(key.0, key.1));
                }
            }
        }
    }
}

/// What the table `t` holds for the action `id` and the item `k`.
pub open spec fn table_get(t: Map<(u128, int), bool>, id: u128, k: int) -> Option<bool> {
    if t.contains_key((id, k)) {
        Some(t[(id, k)])
    } else {
        None
    }
}

proof fn lemma_cache_index_from(s: Seq<(u128, usize, bool)>, id: u128, k: int, i: int)
    requires
        0 <= i,
    ensures
        match cache_index_from(s, id, k, i) {
            Some(j) => i <= j < s.len() && s[j].0 == id && s[j].1 == k && forall|l: int|
                i <= l < j ==> !(s[l].0 == id && s[l].1 == k),
            None => forall|l: int| i <= l < s.len() ==> !(s[l].0 == id && s[l].1 == k),
        },
    decreases s.len() - i,
{
    if i < s.len() && !(s[i].0 == id && s[i].1 == k) {
        lemma_cache_index_from(s, id, k, i + 1);
    }
}

/// The first index of a key is where its first entry is.
proof fn lemma_cache_index_first(s: Seq<(u128, usize, bool)>, id: u128, k: int, j: int)
    requires
        0 <= j < s.len(),
        s[j].0 == id && s[j].1 == k,
        forall|l: int| 0 <= l < j ==> !(s[l].0 == id && s[l].1 == k),
    ensures
        cache_index_from(s, id, k, 0) == Some(j),
{
    lemma_cache_index_from(s, id, k, 0);
    match cache_index_from(s, id, k, 0) {
        Some(x) => {
            if x < j {
            } else if x > j {
            }
        },
        None => {},
    }
}

/// Replacing the entry at `i` by one with the same key moves no first index.
proof fn lemma_cache_index_unique(
    s: Seq<(u128, usize, bool)>,
    t: Seq<(u128, usize, bool)>,
    id: u128,
    k: int,
    i: int,
)
    requires
        0 <= i < s.len(),
        t.len() == s.len(),
        t[i].0 == s[i].0 && t[i].1 == s[i].1,
        forall|l: int| 0 <= l < s.len() && l != i ==> t[l] == s[l],
    ensures
        cache_index_from(t, id, k, 0) == cache_index_from(s, id, k, 0),
{
    lemma_cache_index_from(s, id, k, 0);
    lemma_cache_index_from(t, id, k, 0);
    match cache_index_from(s, id, k, 0) {
        Some(j) => {
            lemma_cache_index_first(t, id, k, j);
        },
        None => {
            match cache_index_from(t, id, k, 0) {
                Some(j) => {
                    assert(t[j] == s[j] || j == i);
                },
                None => {},
            }
        },
    }
}

/// Adding an entry at the end moves no first index already there.
proof fn lemma_cache_index_push(s: Seq<(u128, usize, bool)>, t: Seq<(u128, usize, bool)>, id: u128, k: int)
    requires
        t.len() == s.len() + 1,
        forall|l: int| 0 <= l < s.len() ==> t[l] == s[l],
    ensures
        cache_index_from(s, id, k, 0).is_some() ==> cache_index_from(t, id, k, 0) == cache_index_from(s, id, k, 0),
        cache_index_from(s, id, k, 0).is_none() ==> (cache_index_from(t, id, k, 0) == if t[s.len() as int].0 == id && t[s.len() as int].1 == k {
            Some(s.len() as int)
        } else {
            None
        }),
{
    lemma_cache_index_from(s, id, k, 0);
    lemma_cache_index_from(t, id, k, 0);
    match cache_index_from(s, id, k, 0) {
        Some(j) => {
            lemma_cache_index_first(t, id, k, j);
        },
        None => {
            if t[s.len() as int].0 == id && t[s.len() as int].1 == k {
                lemma_cache_index_first(t, id, k, s.len() as int);
            }
        },
    }
}

/// The index of the first action with the id `id`.
pub open spec fn find_action_from(all: Seq<SyncAction>, id: HakuId, i: int) -> Option<int>
    decreases all.len() - i,
{
    if i < 0 || i >= all.len() {
        None
    } else if all[i].id == id {
        Some(i)
    } else {
        find_action_from(all, id, i + 1)
    }
}

/// The index of the first action with the id `id`.
pub open spec fn find_action(all: Seq<SyncAction>, id: HakuId) -> Option<int> {
    find_action_from(all, id, 0)
}

pub proof fn lemma_find_action(all: Seq<SyncAction>, id: HakuId)
    ensures
        match find_action(all, id) {
            Some(j) => 0 <= j < all.len() && all[j].id == id,
            None => forall|j: int| 0 <= j < all.len() ==> all[j].id != id,
        },
{
    lemma_find_action_from(all, id, 0);
}

/// No action before the first with the id `id` has that id.
pub proof fn lemma_find_action_first(all: Seq<SyncAction>, id: HakuId)
    ensures
        match find_action(all, id) {
            Some(t) => forall|l: int| 0 <= l < t ==> all[l].id != id,
            None => true,
        },
{
    lemma_find_action_first_from(all, id, 0);
}

proof fn lemma_find_action_first_from(all: Seq<SyncAction>, id: HakuId, i: int)
    requires
        0 <= i,
    ensures
        match find_action_from(all, id, i) {
            Some(t) => forall|l: int| i <= l < t ==> all[l].id != id,
            None => true,
        },
    decreases all.len() - i,
{
    if i < all.len() && all[i].id != id {
        lemma_find_action_first_from(all, id, i + 1);
    }
}

proof fn lemma_find_action_from(all: Seq<SyncAction>, id: HakuId, i: int)
    requires
        0 <= i,
    ensures
        match find_action_from(all, id, i) {
            Some(j) => i <= j < all.len() && all[j].id == id,
            None => forall|j: int| i <= j < all.len() ==> all[j].id != id,
        },
    decreases all.len() - i,
{
    if i < all.len() && all[i].id != id {
        lemma_find_action_from(all, id, i + 1);
    }
}

/// The `j`-th action id named by item `k` of `a`, where that item names actions.
pub open spec fn referenced_id(a: SyncAction, k: int, j: int) -> Option<HakuId> {
    if 0 <= k < a.criteria.items@.len() {
        match a.criteria.items@[k] {
            CriteriaItem::MellowServerSyncingActions { action_ids, .. } => if 0 <= j < action_ids@.len() {
                Some(action_ids@[j])
            } else {
                None
            },
            _ => None,
        }
    } else {
        None
    }
}

/// `rank` orders the actions of `g` so that every action that one of them
/// names, and that `all` holds, ranks lower than it.
pub open spec fn valid_ranking(all: Seq<SyncAction>, g: Seq<SyncAction>, rank: spec_fn(SyncAction) -> nat) -> bool {
    forall|i: int, k: int, j: int|
        0 <= i < g.len() ==> match #[trigger] referenced_id(g[i], k, j) {
            Some(id) => match find_action(all, id) {
                Some(t) => rank(all[t]) < rank(g[i]),
                None => true,
            },
            None => true,
        }
}

/// Every action that an action of `g` names, and that `all` holds, is in `g`.
pub open spec fn closed(all: Seq<SyncAction>, g: Seq<SyncAction>) -> bool {
    forall|i: int, k: int, j: int|
        0 <= i < g.len() ==> match #[trigger] referenced_id(g[i], k, j) {
            Some(id) => match find_action(all, id) {
                Some(t) => g.contains(all[t]),
                None => true,
            },
            None => true,
        }
}

/// The action that `x` names at item `k`, place `j`: the first of `all`
/// with the id named there, where `all` holds one.
pub open spec fn named_action(all: Seq<SyncAction>, x: SyncAction, k: int, j: int) -> Option<SyncAction> {
    match referenced_id(x, k, j) {
        Some(id) => match find_action(all, id) {
            Some(t) => if 0 <= t < all.len() {
                Some(all[t])
            } else {
                None
            },
            None => None,
        },
        None => None,
    }
}

/// `x` is `root`, or is reached from it by following what actions name, in
/// at most `n` steps.
pub open spec fn reach(all: Seq<SyncAction>, root: SyncAction, x: SyncAction, n: nat) -> bool
    decreases n,
{
    if n == 0 {
        x == root
    } else {
        reach(all, root, x, (n - 1) as nat) || exists|y: SyncAction, k: int, j: int|
            reach(all, root, y, (n - 1) as nat) && #[trigger] named_action(all, y, k, j) == Some(x)
    }
}

/// `x` is reached from `root` by following what actions name.
pub open spec fn reachable(all: Seq<SyncAction>, root: SyncAction, x: SyncAction) -> bool {
    exists|n: nat| #[trigger] reach(all, root, x, n)
}

/// What `x` names, where `x` is reached from `root`, is reached from it.
pub proof fn lemma_reach_step(all: Seq<SyncAction>, root: SyncAction, y: SyncAction, k: int, j: int)
    requires
        reachable(all, root, y),
        named_action(all, y, k, j) is Some,
    ensures
        reachable(all, root, named_action(all, y, k, j).unwrap()),
{
    let n = choose|n: nat| #[trigger] reach(all, root, y, n);
    let x = named_action(all, y, k, j).unwrap();
    assert(reach(all, root, x, n + 1));
}

/// The actions of `all`, and `action`.
pub open spec fn universe(all: Seq<SyncAction>, action: SyncAction) -> Seq<SyncAction> {
    if all.contains(action) {
        all
    } else {
        all.push(action)
    }
}

/// The actions whose criteria an evaluation of `action` may look at: those
/// reached from it.
pub open spec fn reach_seq(all: Seq<SyncAction>, action: SyncAction) -> Seq<SyncAction> {
    universe(all, action).filter(|x: SyncAction| reachable(all, action, x))
}

/// `action` is among the actions reached from it, which hold what they name
/// and only actions reached from it.
pub proof fn lemma_reach_seq(all: Seq<SyncAction>, action: SyncAction)
    ensures
        reach_seq(all, action).contains(action),
        closed(all, reach_seq(all, action)),
        forall|x: SyncAction| #[trigger] reach_seq(all, action).contains(x) ==> reachable(all, action, x),
{
    let u = universe(all, action);
    let pred = |x: SyncAction| reachable(all, action, x);
    let g = reach_seq(all, action);
    assert(reach(all, action, action, 0));
    let ui: int = if all.contains(action) {
        choose|i: int| 0 <= i < all.len() && all[i] == action
    } else {
        all.len() as int
    };
    assert(u[ui] == action);
    u.lemma_filter_contains(pred, ui);
    assert forall|x: SyncAction| #[trigger] g.contains(x) implies reachable(all, action, x) by {
        let i = choose|i: int| 0 <= i < g.len() && g[i] == x;
        u.lemma_filter_pred(pred, i);
    }
    assert forall|i: int, k: int, j: int| 0 <= i < g.len() implies match #[trigger] referenced_id(g[i], k, j) {
        Some(id) => match find_action(all, id) {
            Some(t) => g.contains(all[t]),
            None => true,
        },
        None => true,
    } by {
        match referenced_id(g[i], k, j) {
            Some(id) => {
                lemma_find_action(all, id);
                match find_action(all, id) {
                    Some(t) => {
                        u.lemma_filter_pred(pred, i);
                        lemma_reach_step(all, action, g[i], k, j);
                        assert(u[t] == all[t]);
                        u.lemma_filter_contains(pred, t);
                    },
                    None => {},
                }
            },
            None => {},
        }
    }
}

/// No chain of actions naming one another, starting from `action`, comes
/// back to an action already on it: where one does, the evaluation of
/// `action`'s criteria never ends.
pub open spec fn acyclic(all: Seq<SyncAction>, action: SyncAction) -> bool {
    exists|rank: spec_fn(SyncAction) -> nat| valid_ranking(all, reach_seq(all, action), rank)
}

/// A ranking of the actions of `g`, where there is one.
pub open spec fn ranking_of(all: Seq<SyncAction>, g: Seq<SyncAction>) -> spec_fn(SyncAction) -> nat {
    choose|rank: spec_fn(SyncAction) -> nat| valid_ranking(all, g, rank)
}

/// A ranking that shows `acyclic(all, action)`.
pub open spec fn ranking(all: Seq<SyncAction>, action: SyncAction) -> spec_fn(SyncAction) -> nat {
    ranking_of(all, reach_seq(all, action))
}

/// Two actions of `g` with the same id are the same action.
pub open spec fn ids_consistent(g: Seq<SyncAction>) -> bool {
    forall|i: int, j: int| 0 <= i < g.len() && 0 <= j < g.len() && #[trigger] g[i].id == #[trigger] g[j].id ==> g[i] == g[j]
}

/// The member's answer to an action's criteria where `count` of its items
/// are met: all of them, or at least the minimum, which must be one or more.
pub open spec fn top_ok(count: nat, len: nat, min: Option<nat>) -> bool {
    match min {
        None => count == len,
        Some(v) => v >= 1 && count >= v,
    }
}

/// The answer to an item naming `len` actions of which `count` are found and
/// met: all of them; or, with a minimum, at least that many, a minimum of
/// zero asking that none be met.
pub open spec fn nested_ok(count: nat, len: nat, min: Option<nat>) -> bool {
    count == len || match min {
        None => false,
        Some(v) => if v == 0 { count == 0 } else { count >= v },
    }
}

/// The index of the first pledge of the user `user` to the campaign `campaign`
/// that entitles the tier `tier`.
pub open spec fn pledge_matches(p: PatreonPledge, user: u128, campaign: Seq<char>, tier: Seq<char>) -> bool {
    p.user_id == user && p.campaign_id@ == campaign && exists|t: int|
        0 <= t < p.tiers@.len() && (#[trigger] p.tiers@[t])@ == tier
}

/// The index of the first pledge at or after `i` that matches.
pub open spec fn first_pledge_from(ps: Seq<PatreonPledge>, user: u128, campaign: Seq<char>, tier: Seq<char>, i: int) -> Option<int>
    decreases ps.len() - i,
{
    if i < 0 || i >= ps.len() {
        None
    } else if pledge_matches(ps[i], user, campaign, tier) {
        Some(i)
    } else {
        first_pledge_from(ps, user, campaign, tier, i + 1)
    }
}

/// The membership `m` of the Roblox account `roblox_id` satisfies the Roblox item.
pub open spec fn membership_satisfies(item: CriteriaItem, m: RobloxMembership, roblox_id: Seq<char>) -> bool {
    m.user_id@ == roblox_id && match item {
        CriteriaItem::RobloxGroupMembership { group_id } => m.group_id == group_id,
        CriteriaItem::RobloxGroupMembershipRole { role_id, .. } => m.role == role_id,
        CriteriaItem::RobloxGroupMembershipRoleRankInRange { group_id, range_lower, range_upper } =>
            m.group_id == group_id && range_lower <= m.rank && m.rank <= range_upper,
        _ => false,
    }
}

/// Some membership satisfies the Roblox item.
pub open spec fn roblox_item_met(item: CriteriaItem, ms: Seq<RobloxMembership>, roblox_id: Seq<char>) -> bool {
    exists|i: int| 0 <= i < ms.len() && membership_satisfies(item, #[trigger] ms[i], roblox_id)
}

/// Law: a Roblox item is met exactly when a membership of the member's
/// Roblox account has all that the item asks for: the group it names; the
/// role it names; or the group it names with a rank in its range.
/// Memberships of other accounts, and of other groups, never meet it.
pub proof fn lemma_roblox_items_met(item: CriteriaItem, ms: Seq<RobloxMembership>, roblox_id: Seq<char>)
    ensures
        item matches CriteriaItem::RobloxGroupMembership { group_id } ==> (roblox_item_met(item, ms, roblox_id) <==> exists|i: int|
            0 <= i < ms.len() && (#[trigger] ms[i]).user_id@ == roblox_id && ms[i].group_id == group_id),
        item matches CriteriaItem::RobloxGroupMembershipRole { role_id, .. } ==> (roblox_item_met(item, ms, roblox_id) <==> exists|i: int|
            0 <= i < ms.len() && (#[trigger] ms[i]).user_id@ == roblox_id && ms[i].role == role_id),
        item matches CriteriaItem::RobloxGroupMembershipRoleRankInRange { group_id, range_lower, range_upper } ==> (roblox_item_met(
            item,
            ms,
            roblox_id,
        ) <==> exists|i: int|
            0 <= i < ms.len() && (#[trigger] ms[i]).user_id@ == roblox_id && ms[i].group_id == group_id && range_lower
                <= ms[i].rank && ms[i].rank <= range_upper),
        !(item is RobloxGroupMembership || item is RobloxGroupMembershipRole || item is RobloxGroupMembershipRoleRankInRange)
            ==> !roblox_item_met(item, ms, roblox_id),
{
    if roblox_item_met(item, ms, roblox_id) {
        let i = choose|i: int| 0 <= i < ms.len() && membership_satisfies(item, #[trigger] ms[i], roblox_id);
        assert(ms[i].user_id@ == roblox_id);
    }
    match item {
        CriteriaItem::RobloxGroupMembership { group_id } => {
            if exists|i: int| 0 <= i < ms.len() && (#[trigger] ms[i]).user_id@ == roblox_id && ms[i].group_id == group_id {
                let i = choose|i: int| 0 <= i < ms.len() && (#[trigger] ms[i]).user_id@ == roblox_id && ms[i].group_id == group_id;
                assert(membership_satisfies(item, ms[i], roblox_id));
            }
        },
        CriteriaItem::RobloxGroupMembershipRole { role_id, .. } => {
            if exists|i: int| 0 <= i < ms.len() && (#[trigger] ms[i]).user_id@ == roblox_id && ms[i].role == role_id {
                let i = choose|i: int| 0 <= i < ms.len() && (#[trigger] ms[i]).user_id@ == roblox_id && ms[i].role == role_id;
                assert(membership_satisfies(item, ms[i], roblox_id));
            }
        },
        CriteriaItem::RobloxGroupMembershipRoleRankInRange { group_id, range_lower, range_upper } => {
            if exists|i: int|
                0 <= i < ms.len() && (#[trigger] ms[i]).user_id@ == roblox_id && ms[i].group_id == group_id && range_lower
                    <= ms[i].rank && ms[i].rank <= range_upper {
                let i = choose|i: int|
                    0 <= i < ms.len() && (#[trigger] ms[i]).user_id@ == roblox_id && ms[i].group_id == group_id && range_lower
                        <= ms[i].rank && ms[i].rank <= range_upper;
                assert(membership_satisfies(item, ms[i], roblox_id));
            }
        },
        _ => {},
    }
}

/// Law: a Roblox item is met only for a member with a HAKUMI account and a
/// Roblox connection whose account has a membership that meets the item;
/// and it is met where the member's first Roblox connection has one.
pub proof fn lemma_roblox_item_needs_account(item: CriteriaItem, user: Option<HakuId>, conns: Seq<Connection>, md: ConnectionMetadata)
    requires
        item is RobloxGroupMembership || item is RobloxGroupMembershipRole || item is RobloxGroupMembershipRoleRankInRange,
    ensures
        simple_item_met(item, user, conns, md) ==> user is Some && exists|c: int|
            0 <= c < conns.len() && (#[trigger] conns[c]).kind == ConnectionKind::Roblox && roblox_item_met(
                item,
                md.roblox_memberships@,
                conns[c].sub@,
            ),
        connection::first_of_kind(conns, ConnectionKind::Roblox) matches Some(c) ==> (user is Some && roblox_item_met(
            item,
            md.roblox_memberships@,
            conns[c].sub@,
        ) ==> simple_item_met(item, user, conns, md)),
{
    connection::lemma_first_of_kind(conns, ConnectionKind::Roblox);
    if simple_item_met(item, user, conns, md) {
        let c = connection::first_of_kind(conns, ConnectionKind::Roblox).unwrap();
        assert(conns[c].kind == ConnectionKind::Roblox);
    }
}

/// The item is one of the Roblox items.
pub open spec fn is_roblox_item(item: CriteriaItem) -> bool {
    item is RobloxGroupMembership || item is RobloxGroupMembershipRole
        || item is RobloxGroupMembershipRoleRankInRange
}

/// Whether an item that names no action is met: a connection of the kind
/// asked for; a pledge entitling the tier asked for; a membership of the
/// member's first Roblox account satisfying the Roblox item.
pub open spec fn simple_item_met(item: CriteriaItem, user: Option<HakuId>, conns: Seq<Connection>, md: ConnectionMetadata) -> bool {
    match item {
        CriteriaItem::HakumiUserConnection { connection_kind } => user.is_some()
            && connection::has_kind(conns, connection_kind),
        CriteriaItem::PatreonCampaignTierSubscription { tier_id, campaign_id } => match user {
            Some(u) => first_pledge_from(md.patreon_pledges@, u.value, campaign_id@, tier_id@, 0).is_some(),
            None => false,
        },
        CriteriaItem::MellowServerSyncingActions { .. } => false,
        _ => user.is_some() && match connection::first_of_kind(conns, ConnectionKind::Roblox) {
            Some(c) => roblox_item_met(item, md.roblox_memberships@, conns[c].sub@),
            None => false,
        },
    }
}

/// Whether the action `a` is met.
pub open spec fn action_met(
    all: Seq<SyncAction>,
    g: Seq<SyncAction>,
    rank: spec_fn(SyncAction) -> nat,
    a: SyncAction,
    user: Option<HakuId>,
    conns: Seq<Connection>,
    md: ConnectionMetadata,
) -> bool
    decreases rank(a), 3int, 0int
    when valid_ranking(all, g, rank) && g.contains(a)
{
    top_ok(
        items_count(all, g, rank, a, a.criteria.items@.len() as int, user, conns, md),
        a.criteria.items@.len(),
        quantifier_minimum(a.criteria.quantifier),
    )
}

/// How many of the first `n` items of `a` are met.
pub open spec fn items_count(
    all: Seq<SyncAction>,
    g: Seq<SyncAction>,
    rank: spec_fn(SyncAction) -> nat,
    a: SyncAction,
    n: int,
    user: Option<HakuId>,
    conns: Seq<Connection>,
    md: ConnectionMetadata,
) -> nat
    decreases rank(a), 2int, n
    when valid_ranking(all, g, rank) && g.contains(a)
{
    if n <= 0 {
        0
    } else {
        items_count(all, g, rank, a, n - 1, user, conns, md) + if item_met(all, g, rank, a, n - 1, user, conns, md) {
            1nat
        } else {
            0nat
        }
    }
}

/// Whether item `k` of `a` is met.
pub open spec fn item_met(
    all: Seq<SyncAction>,
    g: Seq<SyncAction>,
    rank: spec_fn(SyncAction) -> nat,
    a: SyncAction,
    k: int,
    user: Option<HakuId>,
    conns: Seq<Connection>,
    md: ConnectionMetadata,
) -> bool
    decreases rank(a), 1int, 0int
    when valid_ranking(all, g, rank) && g.contains(a)
{
    if 0 <= k < a.criteria.items@.len() {
        let item = a.criteria.items@[k];
        match item {
            CriteriaItem::MellowServerSyncingActions { action_ids, quantifier } => nested_ok(
                ids_count(all, g, rank, a, k, action_ids@.len() as int, user, conns, md),
                action_ids@.len(),
                quantifier_minimum(quantifier),
            ),
            _ => simple_item_met(item, user, conns, md),
        }
    } else {
        false
    }
}

/// How many of the first `n` actions named by item `k` of `a` are found and met.
pub open spec fn ids_count(
    all: Seq<SyncAction>,
    g: Seq<SyncAction>,
    rank: spec_fn(SyncAction) -> nat,
    a: SyncAction,
    k: int,
    n: int,
    user: Option<HakuId>,
    conns: Seq<Connection>,
    md: ConnectionMetadata,
) -> nat
    decreases rank(a), 0int, n
    when valid_ranking(all, g, rank) && g.contains(a)
{
    if n <= 0 {
        0
    } else {
        ids_count(all, g, rank, a, k, n - 1, user, conns, md) + match referenced_id(a, k, n - 1) {
            Some(id) => match find_action(all, id) {
                Some(j) => {
                    proof {
                        lemma_find_action(all, id);
                        let i = choose|i: int| 0 <= i < g.len() && g[i] == a;
                        assert(referenced_id(g[i], k, n - 1) == Some(id));
                    }
                    if 0 <= j < all.len() && action_met(all, g, rank, all[j], user, conns, md) {
                        1nat
                    } else {
                        0nat
                    }
                },
                None => 0nat,
            },
            None => 0nat,
        }
    }
}

/// `used` with `id` added at the end, unless it is there already.
pub open spec fn push_unique_spec(used: Seq<HakuId>, id: HakuId) -> Seq<HakuId> {
    if used.contains(id) {
        used
    } else {
        used.push(id)
    }
}

/// The connections looked at once an item that names no action has been
/// evaluated: the pledge that entitles the tier, or the member's first
/// Roblox account, added to `used`.
pub open spec fn simple_used(
    item: CriteriaItem,
    user: Option<HakuId>,
    conns: Seq<Connection>,
    md: ConnectionMetadata,
    used: Seq<HakuId>,
) -> Seq<HakuId> {
    match item {
        CriteriaItem::HakumiUserConnection { .. } => used,
        CriteriaItem::PatreonCampaignTierSubscription { tier_id, campaign_id } => match user {
            Some(u) => match first_pledge_from(md.patreon_pledges@, u.value, campaign_id@, tier_id@, 0) {
                Some(p) => push_unique_spec(used, md.patreon_pledges@[p].connection_id),
                None => used,
            },
            None => used,
        },
        CriteriaItem::MellowServerSyncingActions { .. } => used,
        _ => if user.is_some() {
            match connection::first_of_kind(conns, ConnectionKind::Roblox) {
                Some(c) => push_unique_spec(used, conns[c].id),
                None => used,
            }
        } else {
            used
        },
    }
}

/// The number of actions that item `k` of `a` names.
pub open spec fn ids_len(a: SyncAction, k: int) -> int {
    if 0 <= k < a.criteria.items@.len() {
        match a.criteria.items@[k] {
            CriteriaItem::MellowServerSyncingActions { action_ids, .. } => action_ids@.len() as int,
            _ => 0,
        }
    } else {
        0
    }
}

/// The minimum that item `k` of `a` sets on the actions it names.
pub open spec fn ids_minimum(a: SyncAction, k: int) -> Option<nat> {
    if 0 <= k < a.criteria.items@.len() {
        match a.criteria.items@[k] {
            CriteriaItem::MellowServerSyncingActions { quantifier, .. } => quantifier_minimum(quantifier),
            _ => None,
        }
    } else {
        None
    }
}

/// The evaluation of the criteria of `a`, step by step, from the cache
/// table `cache` and the connections `used`: the answer, then the table and
/// the connections after it. Items are taken in order; an item the table
/// holds as met is not evaluated again; each answer is stored; the
/// evaluation stops once the minimum of items is met.
pub open spec fn run_action(
    all: Seq<SyncAction>,
    g: Seq<SyncAction>,
    rank: spec_fn(SyncAction) -> nat,
    a: SyncAction,
    user: Option<HakuId>,
    conns: Seq<Connection>,
    md: ConnectionMetadata,
    cache: Map<(u128, int), bool>,
    used: Seq<HakuId>,
) -> (bool, Map<(u128, int), bool>, Seq<HakuId>)
    decreases rank(a), 3int, 0int
    when valid_ranking(all, g, rank) && g.contains(a)
{
    run_items(all, g, rank, a, 0, 0, user, conns, md, cache, used)
}

/// The evaluation of the items of `a` from item `key` on, `total` of those
/// before it having been met.
pub open spec fn run_items(
    all: Seq<SyncAction>,
    g: Seq<SyncAction>,
    rank: spec_fn(SyncAction) -> nat,
    a: SyncAction,
    key: int,
    total: nat,
    user: Option<HakuId>,
    conns: Seq<Connection>,
    md: ConnectionMetadata,
    cache: Map<(u128, int), bool>,
    used: Seq<HakuId>,
) -> (bool, Map<(u128, int), bool>, Seq<HakuId>)
    decreases rank(a), 2int, a.criteria.items@.len() - key
    when valid_ranking(all, g, rank) && g.contains(a)
{
    let len = a.criteria.items@.len();
    let min = quantifier_minimum(a.criteria.quantifier);
    if key < 0 || key >= len {
        (min is None && total == len, cache, used)
    } else {
        let step = if table_get(cache, a.id.value, key) == Some(true) {
            (true, cache, used)
        } else {
            run_item(all, g, rank, a, key, user, conns, md, cache, used)
        };
        let stored = step.1.insert((a.id.value, key), step.0);
        if step.0 {
            if min == Some((total + 1) as nat) {
                (true, stored, step.2)
            } else {
                run_items(all, g, rank, a, key + 1, (total + 1) as nat, user, conns, md, stored, step.2)
            }
        } else {
            run_items(all, g, rank, a, key + 1, total, user, conns, md, stored, step.2)
        }
    }
}

/// The evaluation of item `key` of `a`.
pub open spec fn run_item(
    all: Seq<SyncAction>,
    g: Seq<SyncAction>,
    rank: spec_fn(SyncAction) -> nat,
    a: SyncAction,
    key: int,
    user: Option<HakuId>,
    conns: Seq<Connection>,
    md: ConnectionMetadata,
    cache: Map<(u128, int), bool>,
    used: Seq<HakuId>,
) -> (bool, Map<(u128, int), bool>, Seq<HakuId>)
    decreases rank(a), 1int, 0int
    when valid_ranking(all, g, rank) && g.contains(a)
{
    if 0 <= key < a.criteria.items@.len() {
        let item = a.criteria.items@[key];
        match item {
            CriteriaItem::MellowServerSyncingActions { .. } => run_ids(
                all,
                g,
                rank,
                a,
                key,
                0,
                0,
                user,
                conns,
                md,
                cache,
                used,
            ),
            _ => (simple_item_met(item, user, conns, md), cache, simple_used(item, user, conns, md, used)),
        }
    } else {
        (false, cache, used)
    }
}

/// The evaluation of the actions that item `key` of `a` names, from the
/// `j`-th on, `count` of those before having been found and met; it stops
/// once the item's minimum is met.
pub open spec fn run_ids(
    all: Seq<SyncAction>,
    g: Seq<SyncAction>,
    rank: spec_fn(SyncAction) -> nat,
    a: SyncAction,
    key: int,
    j: int,
    count: nat,
    user: Option<HakuId>,
    conns: Seq<Connection>,
    md: ConnectionMetadata,
    cache: Map<(u128, int), bool>,
    used: Seq<HakuId>,
) -> (bool, Map<(u128, int), bool>, Seq<HakuId>)
    decreases rank(a), 0int, ids_len(a, key) - j
    when valid_ranking(all, g, rank) && g.contains(a)
{
    let n = ids_len(a, key);
    let min = ids_minimum(a, key);
    if j < 0 || j >= n {
        (min == Some(count) || count == n, cache, used)
    } else {
        match referenced_id(a, key, j) {
            Some(id) => match find_action(all, id) {
                Some(oi) => {
                    proof {
                        lemma_find_action(all, id);
                        let i = choose|i: int| 0 <= i < g.len() && g[i] == a;
                        assert(referenced_id(g[i], key, j) == Some(id));
                    }
                    if 0 <= oi < all.len() {
                        let sub = run_action(all, g, rank, all[oi], user, conns, md, cache, used);
                        if sub.0 {
                            if min == Some((count + 1) as nat) {
                                (true, sub.1, sub.2)
                            } else {
                                run_ids(all, g, rank, a, key, j + 1, (count + 1) as nat, user, conns, md, sub.1, sub.2)
                            }
                        } else {
                            run_ids(all, g, rank, a, key, j + 1, count, user, conns, md, sub.1, sub.2)
                        }
                    } else {
                        run_ids(all, g, rank, a, key, j + 1, count, user, conns, md, cache, used)
                    }
                },
                None => run_ids(all, g, rank, a, key, j + 1, count, user, conns, md, cache, used),
            },
            None => run_ids(all, g, rank, a, key, j + 1, count, user, conns, md, cache, used),
        }
    }
}

/// `id` is that of one of the member's Roblox connections or of a pledge.
pub open spec fn allowed_connection(id: HakuId, conns: Seq<Connection>, md: ConnectionMetadata) -> bool {
    (exists|c: int| 0 <= c < conns.len() && (#[trigger] conns[c]).kind == ConnectionKind::Roblox && conns[c].id == id)
        || (exists|p: int| 0 <= p < md.patreon_pledges@.len() && (#[trigger] md.patreon_pledges@[p]).connection_id == id)
}

/// No id occurs twice.
pub open spec fn no_duplicates(s: Seq<HakuId>) -> bool {
    forall|i: int, j: int| 0 <= i < j < s.len() ==> #[trigger] s[i] != #[trigger] s[j]
}

/// `new` is `old` followed by ids of Roblox connections and pledges, and
/// holds no id twice where `old` did not.
pub open spec fn used_extends(old: Seq<HakuId>, new: Seq<HakuId>, conns: Seq<Connection>, md: ConnectionMetadata) -> bool {
    &&& old.len() <= new.len()
    &&& new.take(old.len() as int) == old
    &&& forall|j: int| old.len() <= j < new.len() ==> allowed_connection(#[trigger] new[j], conns, md)
    &&& no_duplicates(old) ==> no_duplicates(new)
}

pub proof fn lemma_used_extends_refl(s: Seq<HakuId>, conns: Seq<Connection>, md: ConnectionMetadata)
    ensures
        used_extends(s, s, conns, md),
{
    assert(s.take(s.len() as int) =~= s);
}

pub proof fn lemma_used_extends_trans(a: Seq<HakuId>, b: Seq<HakuId>, c: Seq<HakuId>, conns: Seq<Connection>, md: ConnectionMetadata)
    requires
        used_extends(a, b, conns, md),
        used_extends(b, c, conns, md),
    ensures
        used_extends(a, c, conns, md),
{
    assert(c.take(a.len() as int) =~= c.take(b.len() as int).take(a.len() as int));
    assert forall|j: int| a.len() <= j < c.len() implies allowed_connection(#[trigger] c[j], conns, md) by {
        if j < b.len() {
            assert(c[j] == c.take(b.len() as int)[j]);
            assert(b[j] == c[j]);
        }
    }
}

/// Adds `id` to `used` unless it is there already.
fn push_unique(used: &mut Vec<HakuId>, id: HakuId)
    ensures
        old(used)@.contains(id) ==> final(used)@ == old(used)@,
        !old(used)@.contains(id) ==> final(used)@ == old(used)@.push(id),
{
    let len = used.len();
    let mut i: usize = 0;
    while i < len
        invariant
            i <= len,
            len == used@.len(),
            forall|j: int| 0 <= j < i ==> used@[j] != id,
        decreases len - i,
    {
        if used[i] == id {
            assert(used@[i as int] == id);
            return;
        }
        i = i + 1;
    }
    assert(!used@.contains(id));
    used.push(id);
}

proof fn lemma_push_unique_extends(old: Seq<HakuId>, new: Seq<HakuId>, id: HakuId, conns: Seq<Connection>, md: ConnectionMetadata)
    requires
        allowed_connection(id, conns, md),
        old.contains(id) ==> new == old,
        !old.contains(id) ==> new == old.push(id),
    ensures
        used_extends(old, new, conns, md),
{
    if old.contains(id) {
        lemma_used_extends_refl(old, conns, md);
    } else {
        assert(new.take(old.len() as int) =~= old);
        assert forall|i: int, j: int| 0 <= i < j < new.len() && no_duplicates(old) implies #[trigger] new[i] != #[trigger] new[j] by {
            if j == old.len() {
                assert(old[i] == new[i]);
            }
        }
    }
}

/// Whether the pledge `p` entitles the tier `tier`.
fn pledge_has_tier(p: &PatreonPledge, tier: &String) -> (r: bool)
    ensures
        r == exists|t: int| 0 <= t < p.tiers@.len() && (#[trigger] p.tiers@[t])@ == tier@,
{
    let len = p.tiers.len();
    let mut i: usize = 0;
    while i < len
        invariant
            i <= len,
            len == p.tiers@.len(),
            forall|t: int| 0 <= t < i ==> (#[trigger] p.tiers@[t])@ != tier@,
        decreases len - i,
    {
        if p.tiers[i].eq(tier) {
            assert(p.tiers@[i as int]@ == tier@);
            return true;
        }
        i = i + 1;
    }
    false
}

/// The index of the first matching pledge.
fn find_pledge(ps: &Vec<PatreonPledge>, user: u128, campaign: &String, tier: &String) -> (r: Option<usize>)
    ensures
        match r {
            Some(i) => first_pledge_from(ps@, user, campaign@, tier@, 0) == Some(i as int) && (i as int) < ps@.len(),
            None => first_pledge_from(ps@, user, campaign@, tier@, 0).is_none(),
        },
{
    let len = ps.len();
    let mut i: usize = 0;
    while i < len
        invariant
            i <= len,
            len == ps@.len(),
            first_pledge_from(ps@, user, campaign@, tier@, 0) == first_pledge_from(ps@, user, campaign@, tier@, i as int),
        decreases len - i,
    {
        if ps[i].user_id == user && ps[i].campaign_id.eq(campaign) && pledge_has_tier(&ps[i], tier) {
            return Some(i);
        }
        i = i + 1;
    }
    None
}

/// Whether some membership satisfies the Roblox item for the account `roblox_id`.
fn roblox_met(item: &CriteriaItem, ms: &Vec<RobloxMembership>, roblox_id: &String) -> (r: bool)
    ensures
        r == roblox_item_met(*item, ms@, roblox_id@),
{
    let len = ms.len();
    let mut i: usize = 0;
    while i < len
        invariant
            i <= len,
            len == ms@.len(),
            forall|j: int| 0 <= j < i ==> !membership_satisfies(*item, #[trigger] ms@[j], roblox_id@),
        decreases len - i,
    {
        let m = &ms[i];
        let ok = m.user_id.eq(roblox_id) && match item {
            CriteriaItem::RobloxGroupMembership { group_id } => m.group_id == *group_id,
            CriteriaItem::RobloxGroupMembershipRole { role_id, .. } => m.role == *role_id,
            CriteriaItem::RobloxGroupMembershipRoleRankInRange { group_id, range_lower, range_upper } =>
                m.group_id == *group_id && *range_lower <= m.rank && m.rank <= *range_upper,
            _ => false,
        };
        if ok {
            assert(membership_satisfies(*item, ms@[i as int], roblox_id@));
            return true;
        }
        i = i + 1;
    }
    false
}

/// Whether an item that names no action is met, recording the connection it
/// looked at.
fn simple_met(
    item: &CriteriaItem,
    user_id: Option<HakuId>,
    connections: &Vec<Connection>,
    md: &ConnectionMetadata,
    used: &mut Vec<HakuId>,
) -> (r: bool)
    requires
        !(item is MellowServerSyncingActions),
    ensures
        r == simple_item_met(*item, user_id, connections@, *md),
        final(used)@ == simple_used(*item, user_id, connections@, *md, old(used)@),
        used_extends(old(used)@, final(used)@, connections@, *md),
{
    proof { lemma_used_extends_refl(used@, connections@, *md); }
    match item {
        CriteriaItem::HakumiUserConnection { connection_kind } => {
            if user_id.is_none() {
                return false;
            }
            proof { connection::lemma_first_of_kind(connections@, *connection_kind); }
            match find_kind(connections, *connection_kind) {
                Some(i) => {
                    assert(connections@[i as int].kind == *connection_kind);
                    true
                },
                None => false,
            }
        },
        CriteriaItem::PatreonCampaignTierSubscription { tier_id, campaign_id } => {
            match user_id {
                Some(u) => {
                    match find_pledge(&md.patreon_pledges, u.value, campaign_id, tier_id) {
                        Some(p) => {
                            let cid = md.patreon_pledges[p].connection_id;
                            let ghost before = used@;
                            push_unique(used, cid);
                            proof {
                                assert(md.patreon_pledges@[p as int].connection_id == cid);
                                lemma_push_unique_extends(before, used@, cid, connections@, *md);
                            }
                            true
                        },
                        None => false,
                    }
                },
                None => false,
            }
        },
        CriteriaItem::MellowServerSyncingActions { .. } => false,
        _ => {
            if user_id.is_none() {
                return false;
            }
            proof { connection::lemma_first_of_kind(connections@, ConnectionKind::Roblox); }
            match find_kind(connections, ConnectionKind::Roblox) {
                Some(c) => {
                    let cid = connections[c].id;
                    let ghost before = used@;
                    push_unique(used, cid);
                    proof {
                        assert(connections@[c as int].kind == ConnectionKind::Roblox);
                        lemma_push_unique_extends(before, used@, cid, connections@, *md);
                    }
                    roblox_met(item, &md.roblox_memberships, &connections[c].sub)
                },
                None => false,
            }
        },
    }
}

/// Every item that `cache` holds as met, for an action of `g`, is met.
pub open spec fn cache_sound(
    cache: CriteriaCache,
    all: Seq<SyncAction>,
    g: Seq<SyncAction>,
    rank: spec_fn(SyncAction) -> nat,
    user: Option<HakuId>,
    conns: Seq<Connection>,
    md: ConnectionMetadata,
) -> bool {
    forall|i: int, k: int|
        0 <= i < g.len() && #[trigger] cache.lookup(g[i].id.value, k) == Some(true) ==> item_met(
            all,
            g,
            rank,
            g[i],
            k,
            user,
            conns,
            md,
        )
}

proof fn lemma_items_count_monotone(
    all: Seq<SyncAction>,
    g: Seq<SyncAction>,
    rank: spec_fn(SyncAction) -> nat,
    a: SyncAction,
    n: int,
    m: int,
    user: Option<HakuId>,
    conns: Seq<Connection>,
    md: ConnectionMetadata,
)
    requires
        valid_ranking(all, g, rank),
        g.contains(a),
        0 <= n <= m,
    ensures
        items_count(all, g, rank, a, n, user, conns, md) <= items_count(all, g, rank, a, m, user, conns, md),
    decreases m - n,
{
    if n < m {
        lemma_items_count_monotone(all, g, rank, a, n, m - 1, user, conns, md);
    }
}

proof fn lemma_ids_count_monotone(
    all: Seq<SyncAction>,
    g: Seq<SyncAction>,
    rank: spec_fn(SyncAction) -> nat,
    a: SyncAction,
    k: int,
    n: int,
    m: int,
    user: Option<HakuId>,
    conns: Seq<Connection>,
    md: ConnectionMetadata,
)
    requires
        valid_ranking(all, g, rank),
        g.contains(a),
        0 <= n <= m,
    ensures
        ids_count(all, g, rank, a, k, n, user, conns, md) <= ids_count(all, g, rank, a, k, m, user, conns, md),
    decreases m - n,
{
    if n < m {
        lemma_ids_count_monotone(all, g, rank, a, k, n, m - 1, user, conns, md);
    }
}

/// The index of the first action with the id `id`.
fn find_action_index(all: &Vec<SyncAction>, id: HakuId) -> (r: Option<usize>)
    ensures
        match r {
            Some(i) => find_action(all@, id) == Some(i as int) && (i as int) < all.len(),
            None => find_action(all@, id).is_none(),
        },
{
    let len = all.len();
    let mut i: usize = 0;
    while i < len
        invariant
            i <= len,
            len == all.len(),
            find_action(all@, id) == find_action_from(all@, id, i as int),
        decreases len - i,
    {
        if all[i].id == id {
            return Some(i);
        }
        i = i + 1;
    }
    None
}

/// Storing `met` for item `key` of `action`, where that is the item's
/// answer, keeps a cache sound.
proof fn lemma_insert_keeps_sound(
    old_cache: CriteriaCache,
    new_cache: CriteriaCache,
    all: Seq<SyncAction>,
    g: Seq<SyncAction>,
    rank: spec_fn(SyncAction) -> nat,
    action: SyncAction,
    key: int,
    met: bool,
    user: Option<HakuId>,
    conns: Seq<Connection>,
    md: ConnectionMetadata,
)
    requires
        valid_ranking(all, g, rank),
        g.contains(action),
        ids_consistent(g),
        cache_sound(old_cache, all, g, rank, user, conns, md),
        met == item_met(all, g, rank, action, key, user, conns, md),
        new_cache.lookup(action.id.value, key) == Some(met),
        forall|other: u128, j: int|
            !(other == action.id.value && j == key) ==> #[trigger] new_cache.lookup(other, j) == old_cache.lookup(other, j),
    ensures
        cache_sound(new_cache, all, g, rank, user, conns, md),
{
    let i0 = choose|i: int| 0 <= i < g.len() && g[i] == action;
    assert forall|i: int, k: int|
        0 <= i < g.len() && #[trigger] new_cache.lookup(g[i].id.value, k) == Some(true) implies item_met(
        all,
        g,
        rank,
        g[i],
        k,
        user,
        conns,
        md,
    ) by {
        if g[i].id.value == action.id.value && k == key {
            assert(g[i].id == g[i0].id);
            assert(g[i] == g[i0]);
        } else {
            assert(old_cache.lookup(g[i].id.value, k) == Some(true));
        }
    }
}

/// Every item that the table `old` holds as met, `new` holds as met too.
pub open spec fn keeps_met(old: Map<(u128, int), bool>, new: Map<(u128, int), bool>) -> bool {
    forall|id: u128, k: int| #[trigger] table_get(old, id, k) == Some(true) ==> table_get(new, id, k) == Some(true)
}

/// `new` differs from `old` only at items of actions of `g` that rank at
/// most `bound`.
pub open spec fn changed_within(
    old: Map<(u128, int), bool>,
    new: Map<(u128, int), bool>,
    g: Seq<SyncAction>,
    rank: spec_fn(SyncAction) -> nat,
    bound: int,
) -> bool {
    forall|id: u128, k: int|
        #[trigger] table_get(new, id, k) != table_get(old, id, k) ==> exists|i: int|
            0 <= i < g.len() && g[i].id.value == id && rank(g[i]) <= bound
}

proof fn lemma_changed_within_trans(
    a: Map<(u128, int), bool>,
    b: Map<(u128, int), bool>,
    c: Map<(u128, int), bool>,
    g: Seq<SyncAction>,
    rank: spec_fn(SyncAction) -> nat,
    bound1: int,
    bound2: int,
    bound: int,
)
    requires
        changed_within(a, b, g, rank, bound1),
        changed_within(b, c, g, rank, bound2),
        bound1 <= bound,
        bound2 <= bound,
    ensures
        changed_within(a, c, g, rank, bound),
        keeps_met(a, b) && keeps_met(b, c) ==> keeps_met(a, c),
{
    assert forall|id: u128, k: int| #[trigger] table_get(c, id, k) != table_get(a, id, k) implies exists|i: int|
        0 <= i < g.len() && g[i].id.value == id && rank(g[i]) <= bound by {
        if table_get(b, id, k) != table_get(a, id, k) {
        } else {
            assert(table_get(c, id, k) != table_get(b, id, k));
        }
    }
    if keeps_met(a, b) && keeps_met(b, c) {
        assert forall|id: u128, k: int| #[trigger] table_get(a, id, k) == Some(true) implies table_get(c, id, k) == Some(true) by {
            assert(table_get(b, id, k) == Some(true));
        }
    }
}

/// Storing the answer for item `key` of `action` keeps the table changed
/// only within `g`; where the item was held as met at `t1` the answer is
/// met, so that nothing held as met is lost.
proof fn lemma_insert_within(
    t0: Map<(u128, int), bool>,
    t1: Map<(u128, int), bool>,
    t2: Map<(u128, int), bool>,
    t3: Map<(u128, int), bool>,
    g: Seq<SyncAction>,
    rank: spec_fn(SyncAction) -> nat,
    action: SyncAction,
    key: int,
    met: bool,
)
    requires
        g.contains(action),
        changed_within(t0, t1, g, rank, rank(action) as int),
        changed_within(t1, t2, g, rank, rank(action) - 1),
        t3 == t2.insert((action.id.value, key), met),
        table_get(t1, action.id.value, key) == Some(true) ==> met,
        keeps_met(t0, t1),
        keeps_met(t1, t2),
    ensures
        changed_within(t0, t3, g, rank, rank(action) as int),
        keeps_met(t0, t3),
{
    let i0 = choose|i: int| 0 <= i < g.len() && g[i] == action;
    assert(changed_within(t2, t3, g, rank, rank(action) as int)) by {
        assert forall|id: u128, k: int| #[trigger] table_get(t3, id, k) != table_get(t2, id, k) implies exists|i: int|
            0 <= i < g.len() && g[i].id.value == id && rank(g[i]) <= rank(action) as int by {
            assert(g[i0].id.value == id);
        }
    }
    lemma_changed_within_trans(t0, t1, t2, g, rank, rank(action) as int, rank(action) - 1, rank(action) as int);
    lemma_changed_within_trans(t0, t2, t3, g, rank, rank(action) as int, rank(action) as int, rank(action) as int);
    assert forall|id: u128, k: int| #[trigger] table_get(t0, id, k) == Some(true) implies table_get(t3, id, k) == Some(true) by {
        assert(table_get(t1, id, k) == Some(true));
        if !(id == action.id.value && k == key) {
            assert(table_get(t2, id, k) == Some(true));
        }
    }
}

/// Whether the member meets the criteria of `action`, evaluated over the
/// actions of `g` ranked by `rank`.
fn meets_rec(
    user_id: Option<HakuId>,
    connections: &Vec<Connection>,
    action: &SyncAction,
    all_actions: &Vec<SyncAction>,
    md: &ConnectionMetadata,
    cache: &mut CriteriaCache,
    used: &mut Vec<HakuId>,
    Ghost(g): Ghost<Seq<SyncAction>>,
    Ghost(rank): Ghost<spec_fn(SyncAction) -> nat>,
) -> (r: bool)
    requires
        valid_ranking(all_actions@, g, rank),
        g.contains(*action),
        closed(all_actions@, g),
    ensures
        used_extends(old(used)@, final(used)@, connections@, *md),
        cache_sound(*old(cache), all_actions@, g, rank, user_id, connections@, *md) && ids_consistent(g) ==> cache_sound(
            *final(cache),
            all_actions@,
            g,
            rank,
            user_id,
            connections@,
            *md,
        ) && r == action_met(all_actions@, g, rank, *action, user_id, connections@, *md),
        ({
            let s = run_action(all_actions@, g, rank, *action, user_id, connections@, *md, old(cache).table(), old(used)@);
            &&& r == s.0
            &&& final(cache).table() == s.1
            &&& final(used)@ == s.2
        }),
        changed_within(old(cache).table(), final(cache).table(), g, rank, rank(*action) as int),
        keeps_met(old(cache).table(), final(cache).table()),
    decreases rank(*action),
{
    let ghost all = all_actions@;
    let ghost conns = connections@;
    let ghost sound0 = cache_sound(*cache, all, g, rank, user_id, conns, *md) && ids_consistent(g);
    let ghost used0 = used@;
    let ghost table0 = cache.table();
    let ghost goal = run_action(all, g, rank, *action, user_id, conns, *md, table0, used0);
    proof { lemma_used_extends_refl(used@, conns, *md); }
    let items = &action.criteria.items;
    let len = items.len();
    let minimum = action.criteria.quantifier.minimum();
    let mut total_met: usize = 0;
    let mut key: usize = 0;
    while key < len
        invariant
            key <= len,
            len == items@.len(),
            *items == action.criteria.items,
            all == all_actions@,
            conns == connections@,
            valid_ranking(all, g, rank),
            g.contains(*action),
            closed(all, g),
            used_extends(used0, used@, conns, *md),
            used0 == old(used)@,
            sound0 == (cache_sound(*old(cache), all, g, rank, user_id, conns, *md) && ids_consistent(g)),
            total_met <= key,
            match minimum {
                Some(n) => quantifier_minimum(action.criteria.quantifier) == Some(n as nat),
                None => quantifier_minimum(action.criteria.quantifier).is_none(),
            },
            match minimum { Some(v) => v >= 1 ==> total_met < v, None => true },
            sound0 ==> cache_sound(*cache, all, g, rank, user_id, conns, *md)
                && total_met == items_count(all, g, rank, *action, key as int, user_id, conns, *md),
            table0 == old(cache).table(),
            goal == run_action(all, g, rank, *action, user_id, conns, *md, table0, used0),
            run_items(all, g, rank, *action, key as int, total_met as nat, user_id, conns, *md, cache.table(), used@) == goal,
            changed_within(table0, cache.table(), g, rank, rank(*action) as int),
            keeps_met(table0, cache.table()),
        decreases len - key,
    {
        let ghost sound_now = cache_sound(*cache, all, g, rank, user_id, conns, *md) && ids_consistent(g);
        let ghost used_before = used@;
        let ghost table_before = cache.table();
        let ghost step = if table_get(table_before, action.id.value, key as int) == Some(true) {
            (true, table_before, used_before)
        } else {
            run_item(all, g, rank, *action, key as int, user_id, conns, *md, table_before, used_before)
        };
        let cached = cache.get(action.id, key);
        let met = match cached {
            Some(true) => {
                proof {
                    if sound_now {
                        let i0 = choose|i: int| 0 <= i < g.len() && g[i] == *action;
                        assert(cache.lookup(g[i0].id.value, key as int) == Some(true));
                    }
                    lemma_used_extends_refl(used@, conns, *md);
                }
                true
            },
            _ => {
                match &items[key] {
                    CriteriaItem::MellowServerSyncingActions { action_ids, quantifier } => {
                        let n = action_ids.len();
                        let qmin = quantifier.minimum();
                        let mut count: usize = 0;
                        let mut j: usize = 0;
                        let mut done = false;
                        proof {
                            lemma_used_extends_refl(used@, conns, *md);
                            assert(changed_within(table_before, cache.table(), g, rank, rank(*action) - 1));
                            assert(ids_len(*action, key as int) == n);
                            assert(ids_minimum(*action, key as int) == quantifier_minimum(*quantifier));
                        }
                        while j < n && !done
                            invariant
                                j <= n,
                                n == action_ids@.len(),
                                key < len,
                                len == items@.len(),
                                *items == action.criteria.items,
                                items@[key as int] == (CriteriaItem::MellowServerSyncingActions { action_ids: *action_ids, quantifier: *quantifier }),
                                all == all_actions@,
                                conns == connections@,
                                valid_ranking(all, g, rank),
                                g.contains(*action),
                                closed(all, g),
                                sound_now ==> ids_consistent(g),
                                used_extends(used_before, used@, conns, *md),
                                count <= j,
                                match qmin {
                                    Some(m) => quantifier_minimum(*quantifier) == Some(m as nat),
                                    None => quantifier_minimum(*quantifier).is_none(),
                                },
                                done ==> qmin == Some(count) && count >= 1,
                                !done ==> match qmin { Some(v) => v >= 1 ==> count < v, None => true },
                                sound_now ==> cache_sound(*cache, all, g, rank, user_id, conns, *md)
                                    && count == ids_count(all, g, rank, *action, key as int, j as int, user_id, conns, *md),
                                ids_len(*action, key as int) == n,
                                ids_minimum(*action, key as int) == quantifier_minimum(*quantifier),
                                table_get(table_before, action.id.value, key as int) != Some(true),
                                step == run_item(all, g, rank, *action, key as int, user_id, conns, *md, table_before, used_before),
                                !done ==> run_ids(all, g, rank, *action, key as int, j as int, count as nat, user_id, conns, *md, cache.table(), used@) == step,
                                done ==> step == (true, cache.table(), used@),
                                changed_within(table_before, cache.table(), g, rank, rank(*action) - 1),
                                keeps_met(table_before, cache.table()),
                            decreases n - j,
                        {
                            let ghost used_j = used@;
                            assert(referenced_id(*action, key as int, j as int) == Some(action_ids@[j as int]));
                            proof { lemma_find_action(all, action_ids@[j as int]); }
                            match find_action_index(all_actions, action_ids[j]) {
                                Some(oi) => {
                                    proof {
                                        let i0 = choose|i: int| 0 <= i < g.len() && g[i] == *action;
                                        assert(referenced_id(g[i0], key as int, j as int) == Some(action_ids@[j as int]));
                                        assert(g.contains(all[oi as int]));
                                    }
                                    let ghost table_j = cache.table();
                                    let ok = meets_rec(user_id, connections, &all_actions[oi as usize], all_actions, md, cache, used, Ghost(g), Ghost(rank));
                                    proof {
                                        lemma_used_extends_trans(used_before, used_j, used@, conns, *md);
                                        let i0 = choose|i: int| 0 <= i < g.len() && g[i] == *action;
                                        assert(referenced_id(g[i0], key as int, j as int) == Some(action_ids@[j as int]));
                                        assert(rank(all[oi as int]) < rank(*action));
                                        lemma_changed_within_trans(
                                            table_before,
                                            table_j,
                                            cache.table(),
                                            g,
                                            rank,
                                            rank(*action) - 1,
                                            rank(all[oi as int]) as int,
                                            rank(*action) - 1,
                                        );
                                    }
                                    if ok {
                                        count = count + 1;
                                        match qmin {
                                            Some(m) => {
                                                if m == count {
                                                    done = true;
                                                }
                                            },
                                            None => {},
                                        }
                                    }
                                },
                                None => {},
                            }
                            j = j + 1;
                        }
                        let r = match qmin {
                            Some(m) => m == count,
                            None => false,
                        } || count == n;
                        proof {
                            if sound_now {
                                lemma_ids_count_monotone(all, g, rank, *action, key as int, j as int, n as int, user_id, conns, *md);
                                assert(r == nested_ok(ids_count(all, g, rank, *action, key as int, n as int, user_id, conns, *md), n as nat, quantifier_minimum(*quantifier)));
                            }
                        }
                        r
                    },
                    item => {
                        let r = simple_met(item, user_id, connections, md, used);
                        assert(r == item_met(all, g, rank, *action, key as int, user_id, conns, *md));
                        r
                    },
                }
            },
        };
        proof { lemma_used_extends_trans(used0, used_before, used@, conns, *md); }
        assert(sound0 ==> cache_sound(*cache, all, g, rank, user_id, conns, *md));
        assert(sound0 ==> met == item_met(all, g, rank, *action, key as int, user_id, conns, *md));
        let ghost before_insert = *cache;
        proof {
            if table_get(table_before, action.id.value, key as int) == Some(true) {
                assert(cache.table() == table_before);
            }
            assert(changed_within(table_before, cache.table(), g, rank, rank(*action) - 1));
            assert(keeps_met(table_before, cache.table()));
        }
        if met {
            cache.insert(action.id, key, true);
            proof {
                if sound0 {
                    lemma_insert_keeps_sound(before_insert, *cache, all, g, rank, *action, key as int, met, user_id, conns, *md);
                }
                lemma_insert_within(table0, table_before, before_insert.table(), cache.table(), g, rank, *action, key as int, met);
            }
            total_met = total_met + 1;
            match minimum {
                Some(m) => {
                    if m == total_met {
                        proof {
                            if sound0 {
                                lemma_items_count_monotone(all, g, rank, *action, key + 1, len as int, user_id, conns, *md);
                            }
                        }
                        return true;
                    }
                },
                None => {},
            }
        } else {
            cache.insert(action.id, key, false);
            proof {
                if sound0 {
                    lemma_insert_keeps_sound(before_insert, *cache, all, g, rank, *action, key as int, met, user_id, conns, *md);
                }
                lemma_insert_within(table0, table_before, before_insert.table(), cache.table(), g, rank, *action, key as int, met);
            }
        }
        key = key + 1;
    }
    minimum.is_none() && total_met == len
}

/// Whether the member meets the criteria of `action` among `all`.
pub open spec fn criteria_met(
    all: Seq<SyncAction>,
    action: SyncAction,
    user: Option<HakuId>,
    conns: Seq<Connection>,
    md: ConnectionMetadata,
) -> bool {
    action_met(all, reach_seq(all, action), ranking(all, action), action, user, conns, md)
}

/// The evaluation of the criteria of `action` among `all`, step by step,
/// from the cache table `cache` and the connections `used`: the answer, the
/// table after it and the connections looked at.
pub open spec fn criteria_run(
    all: Seq<SyncAction>,
    action: SyncAction,
    user: Option<HakuId>,
    conns: Seq<Connection>,
    md: ConnectionMetadata,
    cache: Map<(u128, int), bool>,
    used: Seq<HakuId>,
) -> (bool, Map<(u128, int), bool>, Seq<HakuId>) {
    run_action(all, reach_seq(all, action), ranking(all, action), action, user, conns, md, cache, used)
}

/// Every item that `cache` holds as met, for `action` or an action of
/// `all`, is met.
pub open spec fn criteria_cache_sound(
    cache: CriteriaCache,
    all: Seq<SyncAction>,
    action: SyncAction,
    user: Option<HakuId>,
    conns: Seq<Connection>,
    md: ConnectionMetadata,
) -> bool {
    cache_sound(cache, all, reach_seq(all, action), ranking(all, action), user, conns, md)
}

/// An empty cache holds nothing as met.
pub proof fn lemma_empty_cache_sound(
    cache: CriteriaCache,
    all: Seq<SyncAction>,
    action: SyncAction,
    user: Option<HakuId>,
    conns: Seq<Connection>,
    md: ConnectionMetadata,
)
    requires
        forall|id: u128, k: int| cache.lookup(id, k).is_none(),
    ensures
        criteria_cache_sound(cache, all, action, user, conns, md),
{
}

/// Whether the member meets the criteria of `action`. `user_id` is the
/// member's HAKUMI account, if any, and `connections` the connections that
/// it shares with the server. Items found met or not are stored in
/// `criteria_cache`, whose entries held as met spare their evaluation; the
/// connections that an item looked at are added to `used_connections`.
pub fn member_meets_action_criteria(
    user_id: Option<HakuId>,
    connections: &Vec<Connection>,
    action: &SyncAction,
    all_actions: &Vec<SyncAction>,
    connection_metadata: &ConnectionMetadata,
    criteria_cache: &mut CriteriaCache,
    used_connections: &mut Vec<HakuId>,
) -> (r: bool)
    requires
        acyclic(all_actions@, *action),
    ensures
        used_extends(old(used_connections)@, final(used_connections)@, connections@, *connection_metadata),
        criteria_cache_sound(*old(criteria_cache), all_actions@, *action, user_id, connections@, *connection_metadata)
            && ids_consistent(reach_seq(all_actions@, *action)) ==> criteria_cache_sound(
            *final(criteria_cache),
            all_actions@,
            *action,
            user_id,
            connections@,
            *connection_metadata,
        ) && r == criteria_met(all_actions@, *action, user_id, connections@, *connection_metadata),
        ({
            let s = criteria_run(
                all_actions@,
                *action,
                user_id,
                connections@,
                *connection_metadata,
                old(criteria_cache).table(),
                old(used_connections)@,
            );
            &&& r == s.0
            &&& final(criteria_cache).table() == s.1
            &&& final(used_connections)@ == s.2
        }),
        forall|id: u128, k: int|
            #[trigger] table_get(final(criteria_cache).table(), id, k) != table_get(old(criteria_cache).table(), id, k)
                ==> exists|x: SyncAction| reachable(all_actions@, *action, x) && x.id.value == id,
        keeps_met(
            old(criteria_cache).table(),
            final(criteria_cache).table(),
        ),
{
    let ghost g = reach_seq(all_actions@, *action);
    let ghost rank = ranking(all_actions@, *action);
    proof {
        lemma_reach_seq(all_actions@, *action);
    }
    let ghost table0 = criteria_cache.table();
    let r = meets_rec(
        user_id,
        connections,
        action,
        all_actions,
        connection_metadata,
        criteria_cache,
        used_connections,
        Ghost(g),
        Ghost(rank),
    );
    proof {
        assert forall|id: u128, k: int|
            #[trigger] table_get(criteria_cache.table(), id, k) != table_get(table0, id, k) implies exists|x: SyncAction|
            reachable(all_actions@, *action, x) && x.id.value == id by {
            let i = choose|i: int| 0 <= i < g.len() && g[i].id.value == id && rank(g[i]) <= rank(*action) as int;
            assert(g.contains(g[i]));
        }
    }
    r
}

} // verus!
