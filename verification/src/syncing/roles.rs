//! The pass over a server's sync actions that decides a member's roles and
//! standing, once it is known which actions the member meets.
use vstd::prelude::*;
use crate::model::sync_action::{SyncAction, SyncActionKind};
use crate::syncing::{MemberStatus, RoleChangeKind};

verus! {

/// The items of `xs` that `ys` does not hold, in order.
pub open spec fn keep_absent(xs: Seq<u64>, ys: Seq<u64>) -> Seq<u64>
    decreases xs.len(),
{
    if xs.len() == 0 {
        Seq::empty()
    } else if ys.contains(xs.last()) {
        keep_absent(xs.drop_last(), ys)
    } else {
        keep_absent(xs.drop_last(), ys).push(xs.last())
    }
}

/// The items of `xs` that `ys` holds, in order.
pub open spec fn keep_present(xs: Seq<u64>, ys: Seq<u64>) -> Seq<u64>
    decreases xs.len(),
{
    if xs.len() == 0 {
        Seq::empty()
    } else if ys.contains(xs.last()) {
        keep_present(xs.drop_last(), ys).push(xs.last())
    } else {
        keep_present(xs.drop_last(), ys)
    }
}

/// Every item of `xs` is in `ys`.
pub open spec fn all_present(xs: Seq<u64>, ys: Seq<u64>) -> bool {
    forall|i: int| 0 <= i < xs.len() ==> ys.contains(#[trigger] xs[i])
}

/// Where the pass over the actions stands.
pub struct RolePass {
    /// The roles the member is to have.
    pub new_roles: Seq<u64>,
    /// The roles given and taken so far, in order.
    pub changes: Seq<(RoleChangeKind, u64)>,
    /// Whether the member stays, is banned or is kicked.
    pub status: MemberStatus,
    /// Whether a ban or a kick ended the pass.
    pub halted: bool,
    /// Whether a cancelling action ended the pass.
    pub cancelled: bool,
    /// The index of the action that banned or kicked the member.
    pub halted_by: int,
}

/// The pass before any action.
pub open spec fn pass_start(roles: Seq<u64>) -> RolePass {
    RolePass {
        new_roles: roles,
        changes: Seq::empty(),
        status: MemberStatus::Remains,
        halted: false,
        cancelled: false,
        halted_by: 0,
    }
}

/// The changes that give the roles `added`.
pub open spec fn added_changes(added: Seq<u64>) -> Seq<(RoleChangeKind, u64)> {
    Seq::new(added.len(), |i: int| (RoleChangeKind::Added, added[i]))
}

/// The changes that take the roles `removed`.
pub open spec fn removed_changes(removed: Seq<u64>) -> Seq<(RoleChangeKind, u64)> {
    Seq::new(removed.len(), |i: int| (RoleChangeKind::Removed, removed[i]))
}

/// One step of the pass: the action `a`, met or not, applied to `s`, the
/// member having had the roles `roles` before the sync.
pub open spec fn pass_step(s: RolePass, a: SyncAction, index: int, met: bool, roles: Seq<u64>) -> RolePass {
    if s.halted || s.cancelled {
        s
    } else {
        match a.kind {
            SyncActionKind::AssignRoles { role_ids, can_remove } => if met {
                if all_present(role_ids@, s.new_roles) {
                    s
                } else {
                    let added = keep_absent(role_ids@, roles);
                    RolePass { new_roles: s.new_roles + added, changes: s.changes + added_changes(added), ..s }
                }
            } else if can_remove {
                let filtered = keep_absent(s.new_roles, role_ids@);
                if all_present(s.new_roles, filtered) {
                    s
                } else {
                    RolePass {
                        new_roles: filtered,
                        changes: s.changes + removed_changes(keep_present(role_ids@, s.new_roles)),
                        ..s
                    }
                }
            } else {
                s
            },
            SyncActionKind::BanMember(_) => if met {
                RolePass { status: MemberStatus::Banned, halted: true, halted_by: index, ..s }
            } else {
                s
            },
            SyncActionKind::KickMember(_) => if met {
                RolePass { status: MemberStatus::Kicked, halted: true, halted_by: index, ..s }
            } else {
                s
            },
            SyncActionKind::ControlFlowCancel(_) => RolePass { cancelled: true, ..s },
            SyncActionKind::ExecuteDocument => s,
        }
    }
}

/// The pass over the first `n` actions, `mets[i]` telling whether action
/// `i` is met.
pub open spec fn pass_actions(actions: Seq<SyncAction>, mets: Seq<bool>, roles: Seq<u64>, n: int) -> RolePass
    decreases n,
{
    if n <= 0 {
        pass_start(roles)
    } else {
        pass_step(pass_actions(actions, mets, roles, n - 1), actions[n - 1], n - 1, mets[n - 1], roles)
    }
}

/// The pass reaches the action at `i` while still running and finds there
/// an action that runs a document, which a sync cannot do.
pub open spec fn reaches_document(actions: Seq<SyncAction>, mets: Seq<bool>, roles: Seq<u64>, i: int) -> bool {
    let s = pass_actions(actions, mets, roles, i);
    !s.halted && !s.cancelled && actions[i].kind is ExecuteDocument
}

/// Whether `ys` holds `x`.
pub fn vec_has(ys: &Vec<u64>, x: u64) -> (r: bool)
    ensures
        r == ys@.contains(x),
{
    let len = ys.len();
    let mut i: usize = 0;
    while i < len
        invariant
            i <= len,
            len == ys@.len(),
            forall|j: int| 0 <= j < i ==> ys@[j] != x,
        decreases len - i,
    {
        if ys[i] == x {
            assert(ys@[i as int] == x);
            return true;
        }
        i = i + 1;
    }
    false
}

/// Whether every item of `xs` is in `ys`.
pub fn all_in(xs: &Vec<u64>, ys: &Vec<u64>) -> (r: bool)
    ensures
        r == all_present(xs@, ys@),
{
    let len = xs.len();
    let mut i: usize = 0;
    while i < len
        invariant
            i <= len,
            len == xs@.len(),
            forall|j: int| 0 <= j < i ==> ys@.contains(#[trigger] xs@[j]),
        decreases len - i,
    {
        if !vec_has(ys, xs[i]) {
            assert(!ys@.contains(xs@[i as int]));
            return false;
        }
        i = i + 1;
    }
    true
}

/// The items of `xs` that `ys` does not hold, in order.
pub fn absent_from(xs: &Vec<u64>, ys: &Vec<u64>) -> (r: Vec<u64>)
    ensures
        r@ == keep_absent(xs@, ys@),
{
    let len = xs.len();
    let mut out: Vec<u64> = Vec::new();
    let mut i: usize = 0;
    while i < len
        invariant
            i <= len,
            len == xs@.len(),
            out@ == keep_absent(xs@.take(i as int), ys@),
        decreases len - i,
    {
        assert(xs@.take(i + 1).drop_last() =~= xs@.take(i as int));
        assert(xs@.take(i + 1).last() == xs@[i as int]);
        if !vec_has(ys, xs[i]) {
            out.push(xs[i]);
        }
        i = i + 1;
    }
    assert(xs@.take(len as int) =~= xs@);
    out
}

/// The items of `xs` that `ys` holds, in order.
pub fn present_in(xs: &Vec<u64>, ys: &Vec<u64>) -> (r: Vec<u64>)
    ensures
        r@ == keep_present(xs@, ys@),
{
    let len = xs.len();
    let mut out: Vec<u64> = Vec::new();
    let mut i: usize = 0;
    while i < len
        invariant
            i <= len,
            len == xs@.len(),
            out@ == keep_present(xs@.take(i as int), ys@),
        decreases len - i,
    {
        assert(xs@.take(i + 1).drop_last() =~= xs@.take(i as int));
        assert(xs@.take(i + 1).last() == xs@[i as int]);
        if vec_has(ys, xs[i]) {
            out.push(xs[i]);
        }
        i = i + 1;
    }
    assert(xs@.take(len as int) =~= xs@);
    out
}

/// Every item kept as absent is an item of `xs` that `ys` does not hold.
pub proof fn lemma_keep_absent(xs: Seq<u64>, ys: Seq<u64>)
    ensures
        forall|i: int| 0 <= i < keep_absent(xs, ys).len() ==> xs.contains(#[trigger] keep_absent(xs, ys)[i])
            && !ys.contains(keep_absent(xs, ys)[i]),
        forall|x: u64| xs.contains(x) && !ys.contains(x) ==> #[trigger] keep_absent(xs, ys).contains(x),
    decreases xs.len(),
{
    if xs.len() > 0 {
        lemma_keep_absent(xs.drop_last(), ys);
        let k = keep_absent(xs, ys);
        let k0 = keep_absent(xs.drop_last(), ys);
        assert forall|i: int| 0 <= i < k.len() implies xs.contains(#[trigger] k[i]) && !ys.contains(k[i]) by {
            if i < k0.len() {
                assert(k[i] == k0[i]);
                let j = choose|j: int| 0 <= j < xs.drop_last().len() && xs.drop_last()[j] == k0[i];
                assert(xs[j] == k0[i]);
            } else {
                assert(xs[xs.len() - 1] == xs.last());
            }
        }
        assert forall|x: u64| xs.contains(x) && !ys.contains(x) implies #[trigger] k.contains(x) by {
            let j = choose|j: int| 0 <= j < xs.len() && xs[j] == x;
            if j < xs.len() - 1 {
                assert(xs.drop_last()[j] == x);
                assert(xs.drop_last().contains(x));
                assert(k0.contains(x));
                let l = choose|l: int| 0 <= l < k0.len() && k0[l] == x;
                assert(k[l] == x);
            } else {
                assert(k[k.len() - 1] == x);
            }
        }
    }
}

/// Every item kept as present is an item of `xs` that `ys` holds.
pub proof fn lemma_keep_present(xs: Seq<u64>, ys: Seq<u64>)
    ensures
        forall|i: int| 0 <= i < keep_present(xs, ys).len() ==> xs.contains(#[trigger] keep_present(xs, ys)[i])
            && ys.contains(keep_present(xs, ys)[i]),
    decreases xs.len(),
{
    if xs.len() > 0 {
        lemma_keep_present(xs.drop_last(), ys);
        let k = keep_present(xs, ys);
        let k0 = keep_present(xs.drop_last(), ys);
        assert forall|i: int| 0 <= i < k.len() implies xs.contains(#[trigger] k[i]) && ys.contains(k[i]) by {
            if i < k0.len() {
                assert(k[i] == k0[i]);
                let j = choose|j: int| 0 <= j < xs.drop_last().len() && xs.drop_last()[j] == k0[i];
                assert(xs[j] == k0[i]);
            } else {
                assert(xs[xs.len() - 1] == xs.last());
            }
        }
    }
}

/// Once a ban, a kick or a cancelling action ends the pass, no later action changes it.
pub proof fn lemma_pass_stays(actions: Seq<SyncAction>, mets: Seq<bool>, roles: Seq<u64>, n: int, m: int)
    requires
        0 <= n <= m,
        pass_actions(actions, mets, roles, n).halted || pass_actions(actions, mets, roles, n).cancelled,
    ensures
        pass_actions(actions, mets, roles, m) == pass_actions(actions, mets, roles, n),
    decreases m - n,
{
    if n < m {
        lemma_pass_stays(actions, mets, roles, n, m - 1);
    }
}

/// An item of `xs` that `ys` holds is kept as present.
proof fn lemma_keep_present_has(xs: Seq<u64>, ys: Seq<u64>, x: u64)
    requires
        xs.contains(x),
        ys.contains(x),
    ensures
        keep_present(xs, ys).contains(x),
    decreases xs.len(),
{
    let j = choose|j: int| 0 <= j < xs.len() && xs[j] == x;
    if j < xs.len() - 1 {
        assert(xs.drop_last()[j] == x);
        lemma_keep_present_has(xs.drop_last(), ys, x);
        let k0 = keep_present(xs.drop_last(), ys);
        let l = choose|l: int| 0 <= l < k0.len() && k0[l] == x;
        if ys.contains(xs.last()) {
            assert(keep_present(xs, ys)[l] == x);
        }
    } else {
        let k = keep_present(xs, ys);
        assert(k[k.len() - 1] == x);
    }
}

/// Law: every role that a sync gives is one the member did not have before it.
pub proof fn lemma_added_roles_are_new(actions: Seq<SyncAction>, mets: Seq<bool>, roles: Seq<u64>, n: int)
    ensures
        forall|k: int|
            0 <= k < pass_actions(actions, mets, roles, n).changes.len()
                && (#[trigger] pass_actions(actions, mets, roles, n).changes[k]).0 == RoleChangeKind::Added
                ==> !roles.contains(pass_actions(actions, mets, roles, n).changes[k].1),
    decreases n,
{
    if n > 0 {
        lemma_added_roles_are_new(actions, mets, roles, n - 1);
        let s = pass_actions(actions, mets, roles, n - 1);
        let t = pass_actions(actions, mets, roles, n);
        assert(t == pass_step(s, actions[n - 1], n - 1, mets[n - 1], roles));
        match actions[n - 1].kind {
            SyncActionKind::AssignRoles { role_ids, can_remove } => {
                lemma_keep_absent(role_ids@, roles);
                assert forall|k: int|
                    0 <= k < t.changes.len() && (#[trigger] t.changes[k]).0 == RoleChangeKind::Added implies !roles.contains(
                    t.changes[k].1,
                ) by {
                    if k >= s.changes.len() && !s.halted && !s.cancelled && mets[n - 1] && !all_present(
                        role_ids@,
                        s.new_roles,
                    ) {
                        let added = keep_absent(role_ids@, roles);
                        assert(t.changes[k] == added_changes(added)[k - s.changes.len()]);
                    }
                }
            },
            _ => {},
        }
    }
}

/// The action `a` gives roles, may take them away, and names the role `role`.
pub open spec fn may_take(a: SyncAction, role: u64) -> bool {
    match a.kind {
        SyncActionKind::AssignRoles { role_ids, can_remove } => can_remove && role_ids@.contains(role),
        _ => false,
    }
}

/// Law: an action that gives roles but may not take them (`can_remove`
/// unset) takes none: where the member does not meet it, it leaves the
/// pass as it was.
pub proof fn lemma_unmet_giver_takes_nothing(s: RolePass, a: SyncAction, index: int, roles: Seq<u64>)
    requires
        a.kind matches SyncActionKind::AssignRoles { can_remove, .. } && !can_remove,
    ensures
        pass_step(s, a, index, false, roles) == s,
{
}

/// Law: every role that a sync takes away is named by an earlier action
/// that gives roles, may take them (`can_remove`), and that the member does
/// not meet.
pub proof fn lemma_removed_roles_come_from_removers(actions: Seq<SyncAction>, mets: Seq<bool>, roles: Seq<u64>, n: int)
    ensures
        forall|k: int|
            0 <= k < pass_actions(actions, mets, roles, n).changes.len()
                && (#[trigger] pass_actions(actions, mets, roles, n).changes[k]).0 == RoleChangeKind::Removed
                ==> exists|j: int|
                0 <= j < n && !mets[j] && may_take(#[trigger] actions[j], pass_actions(actions, mets, roles, n).changes[k].1),
    decreases n,
{
    if n > 0 {
        lemma_removed_roles_come_from_removers(actions, mets, roles, n - 1);
        let s = pass_actions(actions, mets, roles, n - 1);
        let t = pass_actions(actions, mets, roles, n);
        assert(t == pass_step(s, actions[n - 1], n - 1, mets[n - 1], roles));
        assert forall|k: int|
            0 <= k < t.changes.len() && (#[trigger] t.changes[k]).0 == RoleChangeKind::Removed implies exists|j: int|
            0 <= j < n && !mets[j] && may_take(#[trigger] actions[j], t.changes[k].1) by {
            if k < s.changes.len() {
                assert(t.changes[k] == s.changes[k]);
                let j = choose|j: int|
                    0 <= j < n - 1 && !mets[j] && may_take(#[trigger] actions[j], s.changes[k].1);
                assert(0 <= j < n);
            } else {
                match actions[n - 1].kind {
                    SyncActionKind::AssignRoles { role_ids, can_remove } => {
                        if mets[n - 1] {
                            let added = keep_absent(role_ids@, roles);
                            assert(t.changes[k] == added_changes(added)[k - s.changes.len()]);
                        } else {
                            let removed = keep_present(role_ids@, s.new_roles);
                            lemma_keep_present(role_ids@, s.new_roles);
                            assert(t.changes[k] == removed_changes(removed)[k - s.changes.len()]);
                            assert(removed.contains(removed[k - s.changes.len()]));
                            assert(role_ids@.contains(t.changes[k].1));
                            assert(may_take(actions[n - 1], t.changes[k].1));
                        }
                    },
                    _ => {},
                }
            }
        }
    }
}

/// Law: a sync that reports no role change leaves the member's roles as they were.
pub proof fn lemma_no_change_keeps_roles(actions: Seq<SyncAction>, mets: Seq<bool>, roles: Seq<u64>, n: int)
    ensures
        pass_actions(actions, mets, roles, n).changes.len() == 0 ==> pass_actions(actions, mets, roles, n).new_roles
            == roles,
    decreases n,
{
    if n > 0 {
        lemma_no_change_keeps_roles(actions, mets, roles, n - 1);
        let s = pass_actions(actions, mets, roles, n - 1);
        let t = pass_actions(actions, mets, roles, n);
        assert(t == pass_step(s, actions[n - 1], n - 1, mets[n - 1], roles));
        if t.changes.len() == 0 && !s.halted && !s.cancelled {
            match actions[n - 1].kind {
                SyncActionKind::AssignRoles { role_ids, can_remove } => {
                    if mets[n - 1] {
                        if !all_present(role_ids@, s.new_roles) {
                            let added = keep_absent(role_ids@, roles);
                            assert(added_changes(added).len() == added.len());
                            assert(s.new_roles + added =~= s.new_roles);
                        }
                    } else if can_remove {
                        let filtered = keep_absent(s.new_roles, role_ids@);
                        if !all_present(s.new_roles, filtered) {
                            let i = choose|i: int| 0 <= i < s.new_roles.len() && !filtered.contains(#[trigger] s.new_roles[i]);
                            let x = s.new_roles[i];
                            lemma_keep_absent(s.new_roles, role_ids@);
                            assert(s.new_roles.contains(x));
                            assert(role_ids@.contains(x));
                            lemma_keep_present_has(role_ids@, s.new_roles, x);
                            let removed = keep_present(role_ids@, s.new_roles);
                            assert(removed_changes(removed).len() == removed.len());
                        }
                    }
                },
                _ => {},
            }
        }
    }
}

} // verus!
