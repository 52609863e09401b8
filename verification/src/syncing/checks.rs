//! Checks that a server's sync actions can be evaluated: no two share an
//! id, and no chain of actions naming one another comes back to where it
//! began.
use vstd::prelude::*;
use crate::model::hakuid::HakuId;
use crate::model::sync_action::{CriteriaItem, SyncAction};
use crate::syncing::criteria::{
    acyclic, find_action, ids_consistent, lemma_find_action, lemma_reach_seq, named_action, reach, reach_seq,
    referenced_id, valid_ranking,
};
use crate::syncing::plan::actions_acyclic;

verus! {

/// No two actions share an id.
pub open spec fn ids_distinct(all: Seq<SyncAction>) -> bool {
    forall|i: int, j: int| 0 <= i < j < all.len() ==> #[trigger] all[i].id != #[trigger] all[j].id
}

/// Whether no two of the actions share an id; where none does, two actions
/// with the same id are the same action.
pub fn ids_unique(actions: &Vec<SyncAction>) -> (r: bool)
    ensures
        r == ids_distinct(actions@),
        r ==> ids_consistent(actions@),
{
    let n = actions.len();
    let mut i: usize = 0;
    while i < n
        invariant
            i <= n,
            n == actions@.len(),
            forall|a: int, b: int| 0 <= a < b < n && a < i ==> #[trigger] actions@[a].id != #[trigger] actions@[b].id,
        decreases n - i,
    {
        let mut j: usize = i + 1;
        while j < n
            invariant
                i < n,
                i + 1 <= j <= n,
                n == actions@.len(),
                forall|a: int, b: int| 0 <= a < b < n && a < i ==> #[trigger] actions@[a].id != #[trigger] actions@[b].id,
                forall|b: int| i < b < j ==> actions@[i as int].id != #[trigger] actions@[b].id,
            decreases n - j,
        {
            if actions[i].id == actions[j].id {
                assert(!ids_distinct(actions@)) by {
                    assert(actions@[i as int].id == actions@[j as int].id);
                }
                return false;
            }
            j = j + 1;
        }
        i = i + 1;
    }
    proof {
        assert forall|a: int, b: int|
            0 <= a < n && 0 <= b < n && #[trigger] actions@[a].id == #[trigger] actions@[b].id implies actions@[a]
            == actions@[b] by {
            if a < b {
                assert(actions@[a].id != actions@[b].id);
            } else if b < a {
                assert(actions@[b].id != actions@[a].id);
            }
        }
    }
    true
}

/// The index of the first action of `all`, at or after `i`, equal to `x`.
pub open spec fn first_index_from(all: Seq<SyncAction>, x: SyncAction, i: int) -> Option<int>
    decreases all.len() - i,
{
    if i < 0 || i >= all.len() {
        None
    } else if all[i] == x {
        Some(i)
    } else {
        first_index_from(all, x, i + 1)
    }
}

proof fn lemma_first_index_from(all: Seq<SyncAction>, x: SyncAction, i: int)
    requires
        0 <= i,
    ensures
        match first_index_from(all, x, i) {
            Some(f) => i <= f < all.len() && all[f] == x && forall|l: int| i <= l < f ==> all[l] != x,
            None => forall|l: int| i <= l < all.len() ==> all[l] != x,
        },
    decreases all.len() - i,
{
    if i < all.len() && all[i] != x {
        lemma_first_index_from(all, x, i + 1);
    }
}

/// The first action with a given id is the first equal to itself.
proof fn lemma_first_index_of_found(all: Seq<SyncAction>, id: HakuId)
    requires
        find_action(all, id) is Some,
    ensures
        first_index_from(all, all[find_action(all, id).unwrap()], 0) == find_action(all, id),
{
    lemma_find_action(all, id);
    let t = find_action(all, id).unwrap();
    lemma_first_index_from(all, all[t], 0);
    crate::syncing::criteria::lemma_find_action_first(all, id);
}

/// The ranking that placing the actions gives: an action ranks as the
/// place of the first action equal to it, or above all places where none is.
pub open spec fn place_ranking(all: Seq<SyncAction>, pos: Seq<u64>) -> spec_fn(SyncAction) -> nat {
    |x: SyncAction|
        match first_index_from(all, x, 0) {
            Some(f) => pos[f] as nat,
            None => all.len(),
        }
}

/// The index of the first action with the id `id`.
fn position_of(all: &Vec<SyncAction>, id: HakuId) -> (r: Option<usize>)
    ensures
        match r {
            Some(i) => find_action(all@, id) == Some(i as int) && (i as int) < all@.len(),
            None => find_action(all@, id).is_none(),
        },
{
    let len = all.len();
    let mut i: usize = 0;
    while i < len
        invariant
            i <= len,
            len == all@.len(),
            find_action(all@, id) == crate::syncing::criteria::find_action_from(all@, id, i as int),
        decreases len - i,
    {
        if all[i].id == id {
            return Some(i);
        }
        i = i + 1;
    }
    None
}

/// Every action that action `i` names at item `k`, place `j`, and that the
/// actions hold, is placed.
pub open spec fn named_placed_at(all: Seq<SyncAction>, placed: Seq<bool>, i: int, k: int, j: int) -> bool {
    match referenced_id(all[i], k, j) {
        Some(id) => match find_action(all, id) {
            Some(t) => placed[t],
            None => true,
        },
        None => true,
    }
}

/// Every action that action `i` names, and that the actions hold, is placed.
pub open spec fn named_placed(all: Seq<SyncAction>, placed: Seq<bool>, i: int) -> bool {
    forall|k: int, j: int| #[trigger] named_placed_at(all, placed, i, k, j)
}

/// What action `i` names at item `k`, place `j`, was placed before it.
pub open spec fn placed_below(all: Seq<SyncAction>, placed: Seq<bool>, pos: Seq<u64>, i: int, k: int, j: int) -> bool {
    match referenced_id(all[i], k, j) {
        Some(id) => match find_action(all, id) {
            Some(t) => placed[t] && pos[t] < pos[i],
            None => true,
        },
        None => true,
    }
}

/// How many of the first `m` flags are set.
pub open spec fn count_placed(placed: Seq<bool>, m: int) -> nat
    decreases m,
{
    if m <= 0 {
        0
    } else {
        count_placed(placed, m - 1) + if placed[m - 1] {
            1nat
        } else {
            0nat
        }
    }
}

proof fn lemma_count_placed_bound(placed: Seq<bool>, m: int)
    requires
        0 <= m <= placed.len(),
    ensures
        count_placed(placed, m) <= m,
        count_placed(placed, m) == m <==> forall|a: int| 0 <= a < m ==> placed[a],
    decreases m,
{
    if m > 0 {
        lemma_count_placed_bound(placed, m - 1);
    }
}

proof fn lemma_count_placed_set(placed: Seq<bool>, i: int, m: int)
    requires
        0 <= i < placed.len(),
        0 <= m <= placed.len(),
        !placed[i],
    ensures
        count_placed(placed.update(i, true), m) == count_placed(placed, m) + if i < m {
            1nat
        } else {
            0nat
        },
    decreases m,
{
    if m > 0 {
        lemma_count_placed_set(placed, i, m - 1);
    }
}

/// The index of an action among the first `m` that is not placed, is in
/// `g`, and ranks lowest among those by `rank`; -1 where there is none.
pub open spec fn lowest_unplaced(
    all: Seq<SyncAction>,
    placed: Seq<bool>,
    g: Seq<SyncAction>,
    rank: spec_fn(SyncAction) -> nat,
    m: int,
) -> int
    decreases m,
{
    if m <= 0 {
        -1
    } else {
        let b = lowest_unplaced(all, placed, g, rank, m - 1);
        if placed[m - 1] || !g.contains(all[m - 1]) {
            b
        } else if b < 0 || rank(all[m - 1]) < rank(all[b]) {
            m - 1
        } else {
            b
        }
    }
}

proof fn lemma_lowest_unplaced(all: Seq<SyncAction>, placed: Seq<bool>, g: Seq<SyncAction>, rank: spec_fn(SyncAction) -> nat, m: int)
    requires
        0 <= m,
    ensures
        ({
            let b = lowest_unplaced(all, placed, g, rank, m);
            &&& b < 0 ==> forall|a: int| 0 <= a < m && g.contains(all[a]) ==> placed[a]
            &&& b >= 0 ==> 0 <= b < m && !placed[b] && g.contains(all[b]) && forall|a: int|
                0 <= a < m && !placed[a] && g.contains(all[a]) ==> rank(all[b]) <= rank(all[a])
        }),
    decreases m,
{
    if m > 0 {
        lemma_lowest_unplaced(all, placed, g, rank, m - 1);
    }
}

/// Where the action at `i` is not placed and no action that is not placed
/// is ready, a chain of actions each naming one not placed starts at `i`
/// and comes back on itself: the one of them that ranks lowest would name
/// one that ranks lower still.
proof fn lemma_stuck_cyclic(all: Seq<SyncAction>, placed: Seq<bool>, i: int)
    requires
        placed.len() == all.len(),
        0 <= i < all.len(),
        !placed[i],
        forall|a: int| 0 <= a < all.len() && !placed[a] ==> !named_placed(all, placed, a),
    ensures
        !acyclic(all, all[i]),
{
    if acyclic(all, all[i]) {
        let g = reach_seq(all, all[i]);
        lemma_reach_seq(all, all[i]);
        let rank = choose|rank: spec_fn(SyncAction) -> nat| valid_ranking(all, g, rank);
        lemma_lowest_unplaced(all, placed, g, rank, all.len() as int);
        let m = lowest_unplaced(all, placed, g, rank, all.len() as int);
        assert(m >= 0);
        assert(!named_placed(all, placed, m));
        let (k, j) = choose|k: int, j: int| !#[trigger] named_placed_at(all, placed, m, k, j);
        let gi = choose|gi: int| 0 <= gi < g.len() && g[gi] == all[m];
        match referenced_id(all[m], k, j) {
            Some(id) => {
                lemma_find_action(all, id);
                match find_action(all, id) {
                    Some(t) => {
                        assert(referenced_id(g[gi], k, j) == Some(id));
                        assert(g.contains(all[t]));
                        assert(rank(all[t]) < rank(all[m]));
                        assert(rank(all[m]) <= rank(all[t]));
                    },
                    None => {},
                }
            },
            None => {},
        }
    }
}

/// Where the action at `i` is placed, every action reached from it equals
/// a placed action that is the first equal to it.
proof fn lemma_placed_reach(
    all: Seq<SyncAction>,
    placed: Seq<bool>,
    pos: Seq<u64>,
    i: int,
    x: SyncAction,
    n: nat,
)
    requires
        placed.len() == all.len(),
        pos.len() == all.len(),
        0 <= i < all.len(),
        placed[i],
        forall|a: int| 0 <= a < all.len() && !placed[a] ==> !named_placed(all, placed, a),
        forall|a: int, k: int, j: int| 0 <= a < all.len() && placed[a] ==> #[trigger] placed_below(all, placed, pos, a, k, j),
        reach(all, all[i], x, n),
    ensures
        ({
            let f = first_index_from(all, x, 0);
            f is Some && placed[f.unwrap()]
        }),
    decreases n,
{
    if n == 0 {
        lemma_first_index_from(all, x, 0);
        let f = first_index_from(all, x, 0).unwrap();
        if !placed[f] {
            assert(!named_placed(all, placed, f));
            let (k, j) = choose|k: int, j: int| !#[trigger] named_placed_at(all, placed, f, k, j);
            assert(placed_below(all, placed, pos, i, k, j));
        }
    } else if reach(all, all[i], x, (n - 1) as nat) {
        lemma_placed_reach(all, placed, pos, i, x, (n - 1) as nat);
    } else {
        let (y, k, j) = choose|y: SyncAction, k: int, j: int|
            reach(all, all[i], y, (n - 1) as nat) && #[trigger] named_action(all, y, k, j) == Some(x);
        lemma_placed_reach(all, placed, pos, i, y, (n - 1) as nat);
        let fy = first_index_from(all, y, 0).unwrap();
        lemma_first_index_from(all, y, 0);
        assert(placed_below(all, placed, pos, fy, k, j));
        let id = referenced_id(y, k, j).unwrap();
        lemma_first_index_of_found(all, id);
    }
}

/// Where the action at `i` is placed, the places rank the actions reached
/// from it.
proof fn lemma_placed_acyclic(all: Seq<SyncAction>, placed: Seq<bool>, pos: Seq<u64>, i: int)
    requires
        placed.len() == all.len(),
        pos.len() == all.len(),
        0 <= i < all.len(),
        placed[i],
        forall|a: int| 0 <= a < all.len() && !placed[a] ==> !named_placed(all, placed, a),
        forall|a: int, k: int, j: int| 0 <= a < all.len() && placed[a] ==> #[trigger] placed_below(all, placed, pos, a, k, j),
    ensures
        acyclic(all, all[i]),
{
    let g = reach_seq(all, all[i]);
    lemma_reach_seq(all, all[i]);
    let rank = place_ranking(all, pos);
    assert forall|gi: int, k: int, j: int| 0 <= gi < g.len() implies match #[trigger] referenced_id(g[gi], k, j) {
        Some(id) => match find_action(all, id) {
            Some(t) => rank(all[t]) < rank(g[gi]),
            None => true,
        },
        None => true,
    } by {
        assert(g.contains(g[gi]));
        let n = choose|n: nat| #[trigger] reach(all, all[i], g[gi], n);
        lemma_placed_reach(all, placed, pos, i, g[gi], n);
        lemma_first_index_from(all, g[gi], 0);
        let f = first_index_from(all, g[gi], 0).unwrap();
        match referenced_id(g[gi], k, j) {
            Some(id) => {
                lemma_find_action(all, id);
                match find_action(all, id) {
                    Some(t) => {
                        assert(placed_below(all, placed, pos, f, k, j));
                        lemma_first_index_of_found(all, id);
                    },
                    None => {},
                }
            },
            None => {},
        }
    }
    assert(valid_ranking(all, g, rank));
}

/// Whether every action that action `i` names, and that the actions hold,
/// is placed.
fn all_named_placed(all: &Vec<SyncAction>, placed: &Vec<bool>, i: usize) -> (r: bool)
    requires
        i < all@.len(),
        placed@.len() == all@.len(),
    ensures
        r == named_placed(all@, placed@, i as int),
{
    let items = &all[i].criteria.items;
    let m = items.len();
    let mut k: usize = 0;
    while k < m
        invariant
            i < all@.len(),
            placed@.len() == all@.len(),
            *items == all@[i as int].criteria.items,
            m == items@.len(),
            k <= m,
            forall|kk: int, j: int| kk < k ==> #[trigger] named_placed_at(all@, placed@, i as int, kk, j),
        decreases m - k,
    {
        match &items[k] {
            CriteriaItem::MellowServerSyncingActions { action_ids, .. } => {
                let l = action_ids.len();
                let mut j: usize = 0;
                while j < l
                    invariant
                        i < all@.len(),
                        placed@.len() == all@.len(),
                        *items == all@[i as int].criteria.items,
                        m == items@.len(),
                        k < m,
                        items@[k as int] matches CriteriaItem::MellowServerSyncingActions { action_ids: ids, .. }
                            && ids == *action_ids,
                        l == action_ids@.len(),
                        j <= l,
                        forall|kk: int, jj: int| kk < k ==> #[trigger] named_placed_at(all@, placed@, i as int, kk, jj),
                        forall|jj: int| jj < j ==> #[trigger] named_placed_at(all@, placed@, i as int, k as int, jj),
                    decreases l - j,
                {
                    match position_of(all, action_ids[j]) {
                        Some(t) => {
                            if !placed[t] {
                                assert(!named_placed_at(all@, placed@, i as int, k as int, j as int));
                                return false;
                            }
                        },
                        None => {},
                    }
                    j = j + 1;
                }
                assert forall|jj: int| #[trigger] named_placed_at(all@, placed@, i as int, k as int, jj) by {
                    if jj >= j {
                        assert(referenced_id(all@[i as int], k as int, jj).is_none());
                    }
                }
            },
            _ => {
                assert forall|jj: int| #[trigger] named_placed_at(all@, placed@, i as int, k as int, jj) by {
                    assert(referenced_id(all@[i as int], k as int, jj).is_none());
                }
            },
        }
        k = k + 1;
    }
    assert forall|kk: int, j: int| #[trigger] named_placed_at(all@, placed@, i as int, kk, j) by {
        if kk >= k || kk < 0 {
            assert(referenced_id(all@[i as int], kk, j).is_none());
        }
    }
    true
}

/// For each action, whether evaluating its criteria ends: whether no chain
/// of actions naming one another, starting from it, comes back on itself.
/// Actions are placed one by one, each once all those it names are; an
/// action is placed in the end exactly when its evaluation ends.
pub fn place_actions(all: &Vec<SyncAction>) -> (r: Vec<bool>)
    ensures
        r@.len() == all@.len(),
        forall|i: int| 0 <= i < all@.len() ==> #[trigger] r@[i] == acyclic(all@, all@[i]),
{
    let n = all.len();
    let mut placed: Vec<bool> = Vec::new();
    let mut pos: Vec<u64> = Vec::new();
    let mut i: usize = 0;
    while i < n
        invariant
            i <= n,
            n == all@.len(),
            placed@.len() == i,
            pos@.len() == i,
            forall|a: int| 0 <= a < i ==> !placed@[a],
        decreases n - i,
    {
        placed.push(false);
        pos.push(0);
        i = i + 1;
    }
    proof {
        assert(count_placed(placed@, n as int) == 0) by {
            lemma_count_zero(placed@, n as int);
        }
    }
    let mut count: usize = 0;
    loop
        invariant
            n == all@.len(),
            placed@.len() == n,
            pos@.len() == n,
            count <= n,
            count == count_placed(placed@, n as int),
            forall|a: int| 0 <= a < n && placed@[a] ==> pos@[a] < count,
            forall|a: int, k: int, j: int| 0 <= a < n && placed@[a] ==> #[trigger] placed_below(all@, placed@, pos@, a, k, j),
        decreases n - count,
    {
        let ghost count0 = count;
        let ghost placed0 = placed@;
        let mut progress = false;
        let mut i: usize = 0;
        while i < n
            invariant
                i <= n,
                n == all@.len(),
                placed@.len() == n,
                pos@.len() == n,
                count <= n,
                count == count_placed(placed@, n as int),
                forall|a: int| 0 <= a < n && placed@[a] ==> pos@[a] < count,
                forall|a: int, k: int, j: int| 0 <= a < n && placed@[a] ==> #[trigger] placed_below(all@, placed@, pos@, a, k, j),
                !progress ==> placed@ == placed0 && count == count0,
                progress ==> count > count0,
                !progress ==> forall|a: int| 0 <= a < i && !placed@[a] ==> !named_placed(all@, placed@, a),
            decreases n - i,
        {
            if !placed[i] && all_named_placed(all, &placed, i) {
                let ghost before = placed@;
                let ghost pos_before = pos@;
                proof {
                    lemma_count_placed_set(before, i as int, n as int);
                    lemma_count_placed_bound(before.update(i as int, true), n as int);
                }
                pos.set(i, count as u64);
                placed.set(i, true);
                proof {
                    assert forall|a: int, k: int, j: int| 0 <= a < n && placed@[a] implies #[trigger] placed_below(
                        all@,
                        placed@,
                        pos@,
                        a,
                        k,
                        j,
                    ) by {
                        match referenced_id(all@[a], k, j) {
                            Some(id) => {
                                lemma_find_action(all@, id);
                                match find_action(all@, id) {
                                    Some(t) => {
                                        if a == i {
                                            assert(named_placed_at(all@, before, a, k, j));
                                            assert(before[t]);
                                            assert(pos_before[t] < count);
                                        } else {
                                            assert(placed_below(all@, before, pos_before, a, k, j));
                                            assert(before[t]);
                                        }
                                    },
                                    None => {},
                                }
                            },
                            None => {},
                        }
                    }
                }
                count = count + 1;
                progress = true;
            }
            i = i + 1;
        }
        if !progress {
            proof {
                assert forall|i: int| 0 <= i < all@.len() implies #[trigger] placed@[i] == acyclic(all@, all@[i]) by {
                    if placed@[i] {
                        lemma_placed_acyclic(all@, placed@, pos@, i);
                    } else {
                        lemma_stuck_cyclic(all@, placed@, i);
                    }
                }
            }
            return placed;
        }
    }
}

/// Whether evaluating the criteria of every action ends: no chain of
/// actions naming one another comes back on itself.
pub fn actions_rankable(all: &Vec<SyncAction>) -> (r: bool)
    ensures
        r == actions_acyclic(all@),
{
    let placed = place_actions(all);
    let n = placed.len();
    let mut i: usize = 0;
    while i < n
        invariant
            i <= n,
            n == all@.len(),
            placed@.len() == n,
            forall|a: int| 0 <= a < all@.len() ==> #[trigger] placed@[a] == acyclic(all@, all@[a]),
            forall|a: int| 0 <= a < i ==> acyclic(all@, all@[a]),
        decreases n - i,
    {
        if !placed[i] {
            return false;
        }
        i = i + 1;
    }
    true
}

proof fn lemma_count_zero(placed: Seq<bool>, m: int)
    requires
        0 <= m <= placed.len(),
        forall|a: int| 0 <= a < placed.len() ==> !placed[a],
    ensures
        count_placed(placed, m) == 0,
    decreases m,
{
    if m > 0 {
        lemma_count_zero(placed, m - 1);
    }
}

} // verus!
