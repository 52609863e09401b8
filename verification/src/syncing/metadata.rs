//! What must be fetched from other services before a server's members are
//! synced: the Roblox groups and the Patreon memberships its actions read.
use vstd::prelude::*;
use crate::model::connection::ConnectionKind;
use crate::model::sync_action::{CriteriaItem, SyncAction};
use crate::syncing::SyncingIssue;

verus! {

/// The items of the actions' criteria, action after action.
pub open spec fn items_of(actions: Seq<SyncAction>) -> Seq<CriteriaItem>
    decreases actions.len(),
{
    if actions.len() == 0 {
        Seq::empty()
    } else {
        items_of(actions.drop_last()) + actions.last().criteria.items@
    }
}

/// The Roblox group that an item reads, if any.
pub open spec fn item_group(item: CriteriaItem) -> Option<u64> {
    match item {
        CriteriaItem::RobloxGroupMembership { group_id } => Some(group_id),
        CriteriaItem::RobloxGroupMembershipRole { group_id, .. } => Some(group_id),
        CriteriaItem::RobloxGroupMembershipRoleRankInRange { group_id, .. } => Some(group_id),
        _ => None,
    }
}

/// The Roblox groups that the items read, each once, in the order they first appear.
pub open spec fn groups_of(items: Seq<CriteriaItem>) -> Seq<u64>
    decreases items.len(),
{
    if items.len() == 0 {
        Seq::empty()
    } else {
        let g = groups_of(items.drop_last());
        match item_group(items.last()) {
            Some(x) => if g.contains(x) {
                g
            } else {
                g.push(x)
            },
            None => g,
        }
    }
}

/// The number of items that read a Patreon campaign.
pub open spec fn patreon_items(items: Seq<CriteriaItem>) -> nat
    decreases items.len(),
{
    if items.len() == 0 {
        0
    } else {
        patreon_items(items.drop_last()) + if items.last() is PatreonCampaignTierSubscription {
            1nat
        } else {
            0nat
        }
    }
}

/// Law: the groups to fetch are each listed once, and are exactly the
/// groups that some item reads.
pub proof fn lemma_groups_of(items: Seq<CriteriaItem>)
    ensures
        forall|i: int, j: int|
            0 <= i < j < groups_of(items).len() ==> #[trigger] groups_of(items)[i] != #[trigger] groups_of(items)[j],
        forall|x: u64|
            #[trigger] groups_of(items).contains(x) <==> exists|k: int|
                0 <= k < items.len() && #[trigger] item_group(items[k]) == Some(x),
    decreases items.len(),
{
    if items.len() > 0 {
        let rest = items.drop_last();
        lemma_groups_of(rest);
        let g = groups_of(rest);
        let h = groups_of(items);
        assert forall|x: u64| #[trigger] h.contains(x) <==> exists|k: int|
            0 <= k < items.len() && #[trigger] item_group(items[k]) == Some(x) by {
            if h.contains(x) {
                if g.contains(x) {
                    let k = choose|k: int| 0 <= k < rest.len() && #[trigger] item_group(rest[k]) == Some(x);
                    assert(items[k] == rest[k]);
                } else {
                    let l = choose|l: int| 0 <= l < h.len() && h[l] == x;
                    assert(l == h.len() - 1) by {
                        if l < g.len() {
                            assert(h[l] == g[l]);
                        }
                    }
                    assert(item_group(items[items.len() - 1]) == Some(x));
                }
            }
            if exists|k: int| 0 <= k < items.len() && #[trigger] item_group(items[k]) == Some(x) {
                let k = choose|k: int| 0 <= k < items.len() && #[trigger] item_group(items[k]) == Some(x);
                if k < items.len() - 1 {
                    assert(rest[k] == items[k]);
                    assert(g.contains(x));
                    let l = choose|l: int| 0 <= l < g.len() && g[l] == x;
                    match item_group(items.last()) {
                        Some(y) => if !g.contains(y) {
                            assert(h[l] == x);
                        },
                        None => {},
                    }
                } else {
                    if !g.contains(x) {
                        assert(h[h.len() - 1] == x);
                    }
                }
            }
        }
        assert forall|i: int, j: int| 0 <= i < j < h.len() implies #[trigger] h[i] != #[trigger] h[j] by {
            if j < g.len() {
                assert(h[i] == g[i]);
                assert(h[j] == g[j]);
            } else {
                assert(h[i] == g[i]);
                assert(g.contains(g[i]));
            }
        }
    }
}

/// The items up to a point of the actions: those of the first `i` actions
/// and the first `k` of the next.
proof fn lemma_items_step(actions: Seq<SyncAction>, i: int, k: int)
    requires
        0 <= i < actions.len(),
        0 <= k < actions[i].criteria.items@.len(),
    ensures
        (items_of(actions.take(i)) + actions[i].criteria.items@.take(k + 1)).drop_last() == items_of(actions.take(i))
            + actions[i].criteria.items@.take(k),
        (items_of(actions.take(i)) + actions[i].criteria.items@.take(k + 1)).last() == actions[i].criteria.items@[k],
{
    let a = items_of(actions.take(i));
    let b = actions[i].criteria.items@;
    assert((a + b.take(k + 1)).drop_last() =~= a + b.take(k));
}

/// The items of the first `i + 1` actions are those of the first `i` and all of the next.
proof fn lemma_items_next(actions: Seq<SyncAction>, i: int)
    requires
        0 <= i < actions.len(),
    ensures
        items_of(actions.take(i + 1)) == items_of(actions.take(i)) + actions[i].criteria.items@.take(
            actions[i].criteria.items@.len() as int,
        ),
{
    assert(actions.take(i + 1).drop_last() =~= actions.take(i));
    assert(actions[i].criteria.items@.take(actions[i].criteria.items@.len() as int) =~= actions[i].criteria.items@);
}

/// The Roblox groups that the actions' criteria read, each once, in the
/// order in which they first appear.
pub fn roblox_group_ids(actions: &Vec<SyncAction>) -> (r: Vec<u64>)
    ensures
        r@ == groups_of(items_of(actions@)),
{
    let n = actions.len();
    let mut out: Vec<u64> = Vec::new();
    let mut i: usize = 0;
    assert(actions@.take(0) =~= Seq::<SyncAction>::empty());
    while i < n
        invariant
            i <= n,
            n == actions@.len(),
            out@ == groups_of(items_of(actions@.take(i as int))),
        decreases n - i,
    {
        let items = &actions[i].criteria.items;
        let m = items.len();
        let mut k: usize = 0;
        assert(items@.take(0) =~= Seq::<CriteriaItem>::empty());
        assert(items_of(actions@.take(i as int)) + items@.take(0) =~= items_of(actions@.take(i as int)));
        while k < m
            invariant
                i < n,
                n == actions@.len(),
                *items == actions@[i as int].criteria.items,
                k <= m,
                m == items@.len(),
                out@ == groups_of(items_of(actions@.take(i as int)) + items@.take(k as int)),
            decreases m - k,
        {
            proof { lemma_items_step(actions@, i as int, k as int); }
            let group = match &items[k] {
                CriteriaItem::RobloxGroupMembership { group_id } => Some(*group_id),
                CriteriaItem::RobloxGroupMembershipRole { group_id, .. } => Some(*group_id),
                CriteriaItem::RobloxGroupMembershipRoleRankInRange { group_id, .. } => Some(*group_id),
                _ => None,
            };
            match group {
                Some(g) => {
                    if !contains_id(&out, g) {
                        out.push(g);
                    }
                },
                None => {},
            }
            k = k + 1;
        }
        proof { lemma_items_next(actions@, i as int); }
        i = i + 1;
    }
    assert(actions@.take(n as int) =~= actions@);
    out
}

/// Whether `v` holds `x`.
fn contains_id(v: &Vec<u64>, x: u64) -> (r: bool)
    ensures
        r == v@.contains(x),
{
    let len = v.len();
    let mut i: usize = 0;
    while i < len
        invariant
            i <= len,
            len == v@.len(),
            forall|j: int| 0 <= j < i ==> v@[j] != x,
        decreases len - i,
    {
        if v[i] == x {
            return true;
        }
        i = i + 1;
    }
    false
}

/// How many items of the actions' criteria read a Patreon campaign, at
/// most `u64::MAX`: the memberships of each user are fetched once for each.
pub fn patreon_item_count(actions: &Vec<SyncAction>) -> (r: u64)
    ensures
        r == if patreon_items(items_of(actions@)) > u64::MAX as nat {
            u64::MAX as nat
        } else {
            patreon_items(items_of(actions@))
        },
{
    let n = actions.len();
    let mut count: u64 = 0;
    let mut i: usize = 0;
    assert(actions@.take(0) =~= Seq::<SyncAction>::empty());
    while i < n
        invariant
            i <= n,
            n == actions@.len(),
            count == if patreon_items(items_of(actions@.take(i as int))) > u64::MAX as nat {
                u64::MAX as nat
            } else {
                patreon_items(items_of(actions@.take(i as int)))
            },
        decreases n - i,
    {
        let items = &actions[i].criteria.items;
        let m = items.len();
        let mut k: usize = 0;
        assert(items_of(actions@.take(i as int)) + items@.take(0) =~= items_of(actions@.take(i as int)));
        while k < m
            invariant
                i < n,
                n == actions@.len(),
                *items == actions@[i as int].criteria.items,
                k <= m,
                m == items@.len(),
                count == if patreon_items(items_of(actions@.take(i as int)) + items@.take(k as int)) > u64::MAX as nat {
                    u64::MAX as nat
                } else {
                    patreon_items(items_of(actions@.take(i as int)) + items@.take(k as int))
                },
            decreases m - k,
        {
            proof { lemma_items_step(actions@, i as int, k as int); }
            match &items[k] {
                CriteriaItem::PatreonCampaignTierSubscription { .. } => {
                    count = count.saturating_add(1);
                },
                _ => {},
            }
            k = k + 1;
        }
        proof { lemma_items_next(actions@, i as int); }
        i = i + 1;
    }
    assert(actions@.take(n as int) =~= actions@);
    count
}

/// Notes that a Patreon connection could not be read, once.
pub fn note_missing_patreon(issues: &mut Vec<SyncingIssue>)
    ensures
        final(issues)@ == if old(issues)@.contains(SyncingIssue::MissingOAuthAuthorisation(ConnectionKind::Patreon)) {
            old(issues)@
        } else {
            old(issues)@.push(SyncingIssue::MissingOAuthAuthorisation(ConnectionKind::Patreon))
        },
{
    let len = issues.len();
    let mut i: usize = 0;
    while i < len
        invariant
            i <= len,
            len == issues@.len(),
            issues@ == old(issues)@,
            forall|j: int|
                0 <= j < i ==> issues@[j] != SyncingIssue::MissingOAuthAuthorisation(ConnectionKind::Patreon),
        decreases len - i,
    {
        match issues[i] {
            SyncingIssue::MissingOAuthAuthorisation(ConnectionKind::Patreon) => {
                return;
            },
            _ => {},
        }
        i = i + 1;
    }
    issues.push(SyncingIssue::MissingOAuthAuthorisation(ConnectionKind::Patreon));
}

} // verus!
