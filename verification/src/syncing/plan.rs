//! What a sync does to a member: the roles, the nickname, the ban or kick,
//! and the issues to report, decided from what was fetched beforehand.
use vstd::prelude::*;
use crate::model::connection::{Connection, ConnectionKind, find_kind};
use crate::model::connection;
use crate::model::hakuid::HakuId;
use crate::model::sync_action::{CriteriaItem, SyncAction, SyncActionKind, relevant_connection_spec};
use crate::syncing::criteria::{CriteriaCache, member_meets_action_criteria};
use crate::syncing::criteria;
use crate::syncing::roles;
use crate::syncing::checks;
use crate::syncing::{
    ConnectionMetadata, MemberStatus, NicknameChange, RoleChange, RoleChangeKind, SyncingInitiator, SyncingIssue,
    changes_view, copy_changes, copy_haku_ids, copy_nickname, nickname_view,
};
use crate::text;
use crate::server::logging::{ProfileSyncKind, ServerLog};

verus! {

/// The outcome of a member's sync.
#[derive(Debug)]
pub struct SyncMemberResult {
    pub initiator: SyncingInitiator,
    pub issues: Vec<SyncingIssue>,
    pub role_changes: Vec<RoleChange>,
    pub member_status: MemberStatus,
    pub profile_changed: bool,
    pub nickname_change: Option<NicknameChange>,
    pub relevant_connections: Vec<HakuId>,
    pub user_id: u64,
}

/// What a sync is to carry out: its outcome, the roles and nickname to set
/// where the profile changed, and the audit reason of a ban or kick.
#[derive(Debug)]
pub struct SyncPlan {
    pub result: SyncMemberResult,
    pub new_roles: Vec<u64>,
    pub target_nickname: Option<String>,
    pub removal_reason: Option<String>,
    pub cancelled: bool,
}

/// The name under which `names` knows the role `id`, or `Unknown Role`.
pub open spec fn role_name_spec(names: Seq<(u64, String)>, id: u64) -> Seq<char>
    decreases names.len(),
{
    if names.len() == 0 {
        "Unknown Role"@
    } else if names[0].0 == id {
        names[0].1@
    } else {
        role_name_spec(names.drop_first(), id)
    }
}

/// The name under which `names` knows the role `id`, or `Unknown Role`.
pub fn role_name(names: &Vec<(u64, String)>, id: u64) -> (r: String)
    ensures
        r@ == role_name_spec(names@, id),
{
    let len = names.len();
    let mut i: usize = 0;
    assert(names@.skip(0) =~= names@);
    while i < len
        invariant
            i <= len,
            len == names@.len(),
            role_name_spec(names@, id) == role_name_spec(names@.skip(i as int), id),
        decreases len - i,
    {
        assert(names@.skip(i as int).drop_first() =~= names@.skip(i + 1));
        assert(names@.skip(i as int)[0] == names@[i as int]);
        if names[i].0 == id {
            return names[i].1.clone();
        }
        i = i + 1;
    }
    String::from_str("Unknown Role")
}

/// The changes `changes` carry the kinds and roles `spec`, each named as
/// `names` names it.
pub open spec fn changes_match(changes: Seq<RoleChange>, spec: Seq<(RoleChangeKind, u64)>, names: Seq<(u64, String)>) -> bool {
    changes.len() == spec.len() && forall|i: int|
        0 <= i < changes.len() ==> (#[trigger] changes[i]).kind == spec[i].0 && changes[i].target_id == spec[i].1
            && changes[i].display_name@ == role_name_spec(names, spec[i].1)
}

/// Whether the member meets each action, in order, as the evaluation of
/// each action's criteria answers, one after the other, sharing the cache
/// and the connections looked at.
pub open spec fn mets_of(all: Seq<SyncAction>, user: Option<HakuId>, conns: Seq<Connection>, md: ConnectionMetadata) -> Seq<bool> {
    Seq::new(
        all.len(),
        |i: int|
            {
                let st = evaluated_state(all, user, conns, md, i);
                criteria::criteria_run(all, all[i], user, conns, md, st.0, st.1).0
            },
    )
}

/// The evaluation of every action's criteria ends: from none of them does
/// a chain of actions naming one another come back on itself.
pub open spec fn actions_acyclic(all: Seq<SyncAction>) -> bool {
    forall|i: int| 0 <= i < all.len() ==> criteria::acyclic(all, #[trigger] all[i])
}

/// The pass reaches the action at `i` while still running, and cannot go
/// on: the action runs a document, which a sync cannot do, or evaluating
/// its criteria never ends.
pub open spec fn blocks(all: Seq<SyncAction>, mets: Seq<bool>, roles0: Seq<u64>, i: int) -> bool {
    let s = roles::pass_actions(all, mets, roles0, i);
    !s.halted && !s.cancelled && (all[i].kind is ExecuteDocument || !criteria::acyclic(all, all[i]))
}

/// The nickname that the server's default nickname asks for: the username
/// or the display name of the member's first Roblox connection.
pub open spec fn target_nickname_spec(default_nickname: Option<String>, user: Option<HakuId>, conns: Seq<Connection>) -> Option<Seq<char>> {
    match default_nickname {
        Some(t) => if user.is_some() {
            match connection::first_of_kind(conns, ConnectionKind::Roblox) {
                Some(c) => if t@ == "{roblox_username}"@ {
                    text::opt_view(conns[c].username)
                } else if t@ == "{roblox_display_name}"@ {
                    text::opt_view(conns[c].display_name)
                } else {
                    None
                },
                None => None,
            }
        } else {
            None
        },
        None => None,
    }
}

/// Every connection that an item of the actions looks at is one the member has.
pub open spec fn connections_cover(all: Seq<SyncAction>, conns: Seq<Connection>) -> bool {
    forall|i: int, k: int|
        0 <= i < all.len() && 0 <= k < all[i].criteria.items@.len() ==> match relevant_connection_spec(
            #[trigger] all[i].criteria.items@[k],
        ) {
            Some(kind) => connection::has_kind(conns, kind),
            None => true,
        }
}

/// The audit reason of a ban or kick by the action `a`.
pub open spec fn removal_reason_spec(name: Seq<char>, reason: Option<String>) -> Seq<char> {
    "Met criteria of "@ + name + " — "@ + match reason {
        Some(r) => r@,
        None => "No reason"@,
    }
}

/// The pass over the actions, each met or not as the member meets it.
pub open spec fn pass_of(
    all: Seq<SyncAction>,
    roles: Seq<u64>,
    user: Option<HakuId>,
    conns: Seq<Connection>,
    md: ConnectionMetadata,
) -> roles::RolePass {
    roles::pass_actions(all, mets_of(all, user, conns, md), roles, all.len() as int)
}

/// The cache table and the connections looked at once the criteria of the
/// first `n` actions have been evaluated, in order, from an empty cache.
pub open spec fn evaluated_state(
    all: Seq<SyncAction>,
    user: Option<HakuId>,
    conns: Seq<Connection>,
    md: ConnectionMetadata,
    n: int,
) -> (Map<(u128, int), bool>, Seq<HakuId>)
    decreases n,
{
    if n <= 0 {
        (Map::empty(), Seq::empty())
    } else {
        let prev = evaluated_state(all, user, conns, md, n - 1);
        let s = criteria::criteria_run(all, all[n - 1], user, conns, md, prev.0, prev.1);
        (s.1, s.2)
    }
}

/// The number of actions whose criteria a pass evaluates, counting from
/// action `i`: up to the one after which the pass has halted, or all.
pub open spec fn evaluated_from(all: Seq<SyncAction>, mets: Seq<bool>, roles0: Seq<u64>, i: int) -> int
    decreases all.len() - i,
{
    if i < 0 || i >= all.len() || roles::pass_actions(all, mets, roles0, i).halted {
        i
    } else {
        evaluated_from(all, mets, roles0, i + 1)
    }
}

/// The connections that a sync's criteria looked at, in the order in which
/// they were first looked at.
pub open spec fn relevant_connections_spec(
    all: Seq<SyncAction>,
    roles: Seq<u64>,
    user: Option<HakuId>,
    conns: Seq<Connection>,
    md: ConnectionMetadata,
) -> Seq<HakuId> {
    evaluated_state(all, user, conns, md, evaluated_from(all, mets_of(all, user, conns, md), roles, 0)).1
}

/// The reason given by a banning or kicking action.
pub open spec fn reasoning_of(a: SyncAction) -> Option<String> {
    match a.kind {
        SyncActionKind::BanMember(r) => r.reason,
        SyncActionKind::KickMember(r) => r.reason,
        _ => None,
    }
}

/// The audit reason of the ban or kick that ended the pass `p`, if any.
pub open spec fn removal_of(all: Seq<SyncAction>, p: roles::RolePass) -> Option<Seq<char>> {
    if p.halted {
        Some(removal_reason_spec(all[p.halted_by].display_name@, reasoning_of(all[p.halted_by])))
    } else {
        None
    }
}

/// The nickname change for the target `target`: none for the owner of the
/// server or where the nickname already is the target.
pub open spec fn nickname_change_ok(change: Option<NicknameChange>, target: Option<Seq<char>>, nick: Option<String>, member_id: u64, owner_id: u64) -> bool {
    match target {
        Some(t) => if member_id != owner_id && text::opt_view(nick) != Some(t) {
            change matches Some(c) && text::opt_view(c.0) == text::opt_view(nick) && text::opt_view(c.1) == Some(t)
        } else {
            change is None
        },
        None => change is None,
    }
}

/// The issues to report: those met while fetching, and a missing connection
/// where an action looks at a kind of connection that the member lacks.
pub open spec fn issues_spec(md_issues: Seq<SyncingIssue>, all: Seq<SyncAction>, user: Option<HakuId>, conns: Seq<Connection>) -> Seq<SyncingIssue> {
    if user.is_some() && !connections_cover(all, conns) {
        md_issues.push(SyncingIssue::MissingConnections)
    } else {
        md_issues
    }
}

/// A copy of the ids in `v`.
fn copy_ids(v: &Vec<u64>) -> (r: Vec<u64>)
    ensures
        r@ == v@,
{
    let len = v.len();
    let mut out: Vec<u64> = Vec::new();
    let mut i: usize = 0;
    while i < len
        invariant
            i <= len,
            len == v@.len(),
            out@ == v@.take(i as int),
        decreases len - i,
    {
        out.push(v[i]);
        assert(v@.take(i as int).push(v@[i as int]) =~= v@.take(i + 1));
        i = i + 1;
    }
    assert(v@.take(len as int) =~= v@);
    out
}

/// A copy of the issues in `v`.
fn copy_issues(v: &Vec<SyncingIssue>) -> (r: Vec<SyncingIssue>)
    ensures
        r@ == v@,
{
    let len = v.len();
    let mut out: Vec<SyncingIssue> = Vec::new();
    let mut i: usize = 0;
    while i < len
        invariant
            i <= len,
            len == v@.len(),
            out@ == v@.take(i as int),
        decreases len - i,
    {
        out.push(v[i]);
        assert(v@.take(i as int).push(v@[i as int]) =~= v@.take(i + 1));
        i = i + 1;
    }
    assert(v@.take(len as int) =~= v@);
    out
}

/// The audit reason of a ban or kick by the action named `name`.
fn removal_reason(name: &String, reason: &Option<String>) -> (r: String)
    ensures
        r@ == removal_reason_spec(name@, *reason),
{
    let mut r = String::from_str("Met criteria of ");
    r.append(name.as_str());
    r.append(" — ");
    match reason {
        Some(x) => r.append(x.as_str()),
        None => r.append("No reason"),
    }
    r
}

/// Whether every connection that an item looks at is one the member has.
fn covers(all: &Vec<SyncAction>, conns: &Vec<Connection>) -> (r: bool)
    ensures
        r == connections_cover(all@, conns@),
{
    let len = all.len();
    let mut i: usize = 0;
    while i < len
        invariant
            i <= len,
            len == all@.len(),
            forall|a: int, k: int|
                0 <= a < i && 0 <= k < all@[a].criteria.items@.len() ==> match relevant_connection_spec(
                    #[trigger] all@[a].criteria.items@[k],
                ) {
                    Some(kind) => connection::has_kind(conns@, kind),
                    None => true,
                },
        decreases len - i,
    {
        let items = &all[i].criteria.items;
        let n = items.len();
        let mut k: usize = 0;
        while k < n
            invariant
                k <= n,
                n == items@.len(),
                i < len,
                len == all@.len(),
                *items == all@[i as int].criteria.items,
                forall|j: int| 0 <= j < k ==> match relevant_connection_spec(#[trigger] items@[j]) {
                    Some(kind) => connection::has_kind(conns@, kind),
                    None => true,
                },
            decreases n - k,
        {
            match items[k].relevant_connection() {
                Some(kind) => {
                    proof { connection::lemma_first_of_kind(conns@, kind); }
                    match find_kind(conns, kind) {
                        Some(c) => {
                            assert(conns@[c as int].kind == kind);
                        },
                        None => {
                            assert(!connections_cover(all@, conns@)) by {
                                assert(all@[i as int].criteria.items@[k as int] == items@[k as int]);
                            }
                            return false;
                        },
                    }
                },
                None => {},
            }
            k = k + 1;
        }
        i = i + 1;
    }
    true
}

/// The nickname that the server's default nickname asks for.
fn target_nickname(default_nickname: &Option<String>, user_id: Option<HakuId>, connections: &Vec<Connection>) -> (r: Option<String>)
    ensures
        text::opt_view(r) == target_nickname_spec(*default_nickname, user_id, connections@),
{
    match default_nickname {
        Some(t) => {
            if user_id.is_none() {
                return None;
            }
            proof { connection::lemma_first_of_kind(connections@, ConnectionKind::Roblox); }
            match find_kind(connections, ConnectionKind::Roblox) {
                Some(c) => {
                    if text::str_equal(t.as_str(), "{roblox_username}") {
                        text::clone_opt(&connections[c].username)
                    } else if text::str_equal(t.as_str(), "{roblox_display_name}") {
                        text::clone_opt(&connections[c].display_name)
                    } else {
                        None
                    }
                },
                None => None,
            }
        },
        None => None,
    }
}

/// The result of a sync that a cancelling action stopped.
pub open spec fn cancelled_ok(r: SyncPlan, md: ConnectionMetadata, initiator: SyncingInitiator, member_id: u64) -> bool {
    &&& r.cancelled
    &&& r.result.issues@ == md.issues@
    &&& r.result.role_changes@.len() == 0
    &&& r.result.member_status == MemberStatus::Remains
    &&& !r.result.profile_changed
    &&& r.result.nickname_change is None
    &&& r.result.relevant_connections@.len() == 0
    &&& r.result.initiator == initiator
    &&& r.result.user_id == member_id
    &&& r.target_nickname is None
    &&& r.removal_reason is None
}

/// Decides a member's sync. `member_roles`, `member_nick` and
/// `guild_owner_id` describe the member and the server; `guild_roles` names
/// the server's roles; `user_id` is the member's HAKUMI account, if any, and
/// `connections` the connections it shares with the server. Actions are
/// found by id as the first with that id. `None` where the pass over the
/// actions reaches one that runs a document, which a sync cannot do, or one
/// whose criteria name actions in a chain that comes back on itself, whose
/// evaluation would never end.
pub fn plan_sync_member(
    guild_roles: &Vec<(u64, String)>,
    member_roles: &Vec<u64>,
    member_id: u64,
    member_nick: &Option<String>,
    guild_owner_id: u64,
    user_id: Option<HakuId>,
    connections: &Vec<Connection>,
    actions: &Vec<SyncAction>,
    default_nickname: &Option<String>,
    initiator: SyncingInitiator,
    connection_metadata: &ConnectionMetadata,
) -> (r: Option<SyncPlan>)
    ensures
        r is None <==> exists|i: int|
            0 <= i < actions@.len() && blocks(
                actions@,
                mets_of(actions@, user_id, connections@, *connection_metadata),
                member_roles@,
                i,
            ),
        match r {
            None => true,
            Some(plan) => {
                let p = pass_of(actions@, member_roles@, user_id, connections@, *connection_metadata);
                if p.cancelled {
                    cancelled_ok(plan, *connection_metadata, initiator, member_id)
                } else {
                    let target = target_nickname_spec(*default_nickname, user_id, connections@);
                    &&& !plan.cancelled
                    &&& plan.result.initiator == initiator
                    &&& plan.result.user_id == member_id
                    &&& plan.result.member_status == p.status
                    &&& changes_match(plan.result.role_changes@, p.changes, guild_roles@)
                    &&& plan.new_roles@ == p.new_roles
                    &&& text::opt_view(plan.target_nickname) == target
                    &&& nickname_change_ok(plan.result.nickname_change, target, *member_nick, member_id, guild_owner_id)
                    &&& plan.result.profile_changed == (p.status == MemberStatus::Remains && (p.changes.len() > 0
                        || plan.result.nickname_change is Some))
                    &&& plan.result.issues@ == issues_spec(connection_metadata.issues@, actions@, user_id, connections@)
                    &&& text::opt_view(plan.removal_reason) == removal_of(actions@, p)
                    &&& plan.result.relevant_connections@ == relevant_connections_spec(
                        actions@,
                        member_roles@,
                        user_id,
                        connections@,
                        *connection_metadata,
                    )
                    &&& criteria::used_extends(Seq::empty(), plan.result.relevant_connections@, connections@, *connection_metadata)
                }
            },
        },
{
    let ghost all = actions@;
    let ghost conns = connections@;
    let ghost md = *connection_metadata;
    let ghost mets = mets_of(all, user_id, conns, md);
    let ghost roles0 = member_roles@;
    let ends = checks::place_actions(actions);
    let mut cache = CriteriaCache::new();
    let mut used: Vec<HakuId> = Vec::new();
    let mut new_roles = copy_ids(member_roles);
    let mut changes: Vec<RoleChange> = Vec::new();
    let mut status = MemberStatus::Remains;
    let mut removal: Option<String> = None;
    let mut halted = false;
    let len = actions.len();
    let mut i: usize = 0;
    proof {
        criteria::lemma_used_extends_refl(used@, conns, md);
    }
    while i < len && !halted
        invariant
            i <= len,
            len == all.len(),
            all == actions@,
            conns == connections@,
            md == *connection_metadata,
            roles0 == member_roles@,
            mets == mets_of(all, user_id, conns, md),
            ends@.len() == all.len(),
            forall|j: int| 0 <= j < all.len() ==> #[trigger] ends@[j] == criteria::acyclic(all, all[j]),
            forall|j: int| 0 <= j < i ==> !blocks(all, mets, roles0, j),
            criteria::used_extends(Seq::empty(), used@, conns, md),
            cache.table() == evaluated_state(all, user_id, conns, md, i as int).0,
            used@ == evaluated_state(all, user_id, conns, md, i as int).1,
            evaluated_from(all, mets, roles0, 0) == evaluated_from(all, mets, roles0, i as int),
            ({
                let p = roles::pass_actions(all, mets, roles0, i as int);
                &&& new_roles@ == p.new_roles
                &&& changes_match(changes@, p.changes, guild_roles@)
                &&& status == p.status
                &&& halted == p.halted
                &&& !p.halted ==> p.status == MemberStatus::Remains
                &&& !p.cancelled
                &&& text::opt_view(removal) == removal_of(all, p)
            }),
        decreases len - i,
    {
        let ghost p = roles::pass_actions(all, mets, roles0, i as int);
        let ghost used_before = used@;
        if !ends[i] {
            proof {
                assert(blocks(all, mets, roles0, i as int));
            }
            return None;
        }
        let met = member_meets_action_criteria(user_id, connections, &actions[i], actions, connection_metadata, &mut cache, &mut used);
        proof {
            criteria::lemma_used_extends_trans(Seq::empty(), used_before, used@, conns, md);
            assert(met == mets[i as int]);
        }
        match &actions[i].kind {
            SyncActionKind::AssignRoles { role_ids, can_remove } => {
                if met {
                    if !roles::all_in(role_ids, &new_roles) {
                        let added = roles::absent_from(role_ids, member_roles);
                        let ghost changes_before = changes@;
                        let ghost roles_before = new_roles@;
                        let n = added.len();
                        let mut j: usize = 0;
                        while j < n
                            invariant
                                j <= n,
                                n == added@.len(),
                                new_roles@ == roles_before + added@.take(j as int),
                                changes@.len() == changes_before.len() + j,
                                forall|x: int| 0 <= x < changes_before.len() ==> #[trigger] changes@[x] == changes_before[x],
                                forall|x: int|
                                    changes_before.len() <= x < changes@.len() ==> (#[trigger] changes@[x]).kind
                                        == RoleChangeKind::Added && changes@[x].target_id == added@[x - changes_before.len()]
                                        && changes@[x].display_name@ == role_name_spec(guild_roles@, added@[x - changes_before.len()]),
                            decreases n - j,
                        {
                            let role_id = added[j];
                            new_roles.push(role_id);
                            let name = role_name(guild_roles, role_id);
                            changes.push(RoleChange { kind: RoleChangeKind::Added, target_id: role_id, display_name: name });
                            assert(added@.take(j as int).push(added@[j as int]) =~= added@.take(j + 1));
                            j = j + 1;
                        }
                        assert(added@.take(n as int) =~= added@);
                        assert(changes_match(changes@, p.changes + roles::added_changes(added@), guild_roles@));
                    }
                } else if *can_remove {
                    let filtered = roles::absent_from(&new_roles, role_ids);
                    if !roles::all_in(&new_roles, &filtered) {
                        let removed = roles::present_in(role_ids, &new_roles);
                        let ghost changes_before = changes@;
                        let n = removed.len();
                        let mut j: usize = 0;
                        while j < n
                            invariant
                                j <= n,
                                n == removed@.len(),
                                changes@.len() == changes_before.len() + j,
                                forall|x: int| 0 <= x < changes_before.len() ==> #[trigger] changes@[x] == changes_before[x],
                                forall|x: int|
                                    changes_before.len() <= x < changes@.len() ==> (#[trigger] changes@[x]).kind
                                        == RoleChangeKind::Removed && changes@[x].target_id == removed@[x - changes_before.len()]
                                        && changes@[x].display_name@ == role_name_spec(guild_roles@, removed@[x - changes_before.len()]),
                            decreases n - j,
                        {
                            let role_id = removed[j];
                            let name = role_name(guild_roles, role_id);
                            changes.push(RoleChange { kind: RoleChangeKind::Removed, target_id: role_id, display_name: name });
                            j = j + 1;
                        }
                        new_roles = filtered;
                        assert(changes_match(changes@, p.changes + roles::removed_changes(removed@), guild_roles@));
                    }
                }
            },
            SyncActionKind::BanMember(reasoning) => {
                if met {
                    status = MemberStatus::Banned;
                    removal = Some(removal_reason(&actions[i].display_name, &reasoning.reason));
                    halted = true;
                }
            },
            SyncActionKind::KickMember(reasoning) => {
                if met {
                    status = MemberStatus::Kicked;
                    removal = Some(removal_reason(&actions[i].display_name, &reasoning.reason));
                    halted = true;
                }
            },
            SyncActionKind::ControlFlowCancel(_) => {
                proof {
                    assert(roles::pass_actions(all, mets, roles0, i + 1).cancelled);
                    roles::lemma_pass_stays(all, mets, roles0, i + 1, len as int);
                    assert forall|j: int| 0 <= j < len implies !blocks(all, mets, roles0, j) by {
                        if j > i {
                            roles::lemma_pass_stays(all, mets, roles0, i + 1, j);
                        }
                    }
                }
                let issues = copy_issues(&connection_metadata.issues);
                return Some(SyncPlan {
                    result: SyncMemberResult {
                        initiator,
                        issues,
                        role_changes: Vec::new(),
                        member_status: status,
                        profile_changed: false,
                        nickname_change: None,
                        relevant_connections: Vec::new(),
                        user_id: member_id,
                    },
                    new_roles,
                    target_nickname: None,
                    removal_reason: None,
                    cancelled: true,
                });
            },
            SyncActionKind::ExecuteDocument => {
                proof {
                    assert(blocks(all, mets, roles0, i as int));
                }
                return None;
            },
        }
        i = i + 1;
    }
    proof {
        if halted {
            roles::lemma_pass_stays(all, mets, roles0, i as int, len as int);
            assert forall|j: int| 0 <= j < len implies !blocks(all, mets, roles0, j) by {
                if j >= i {
                    roles::lemma_pass_stays(all, mets, roles0, i as int, j);
                }
            }
        }
    }
    let target = target_nickname(default_nickname, user_id, connections);
    let nickname_change = match &target {
        Some(t) => {
            let differs = match member_nick {
                Some(nick) => !text::str_equal(nick.as_str(), t.as_str()),
                None => true,
            };
            if member_id != guild_owner_id && differs {
                Some(NicknameChange(text::clone_opt(member_nick), Some(t.clone())))
            } else {
                None
            }
        },
        None => None,
    };
    let removed = status.removed();
    let profile_changed = !removed && (changes.len() > 0 || nickname_change.is_some());
    let mut issues = copy_issues(&connection_metadata.issues);
    if user_id.is_some() {
        if !covers(actions, connections) {
            issues.push(SyncingIssue::MissingConnections);
        }
    }
    Some(SyncPlan {
        result: SyncMemberResult {
            initiator,
            issues,
            role_changes: changes,
            member_status: status,
            profile_changed,
            nickname_change,
            relevant_connections: used,
            user_id: member_id,
        },
        new_roles,
        target_nickname: target,
        removal_reason: removal,
        cancelled: false,
    })
}

/// How a sync that ended with the member in `status` is logged.
pub open spec fn profile_sync_kind(status: MemberStatus) -> ProfileSyncKind {
    match status {
        MemberStatus::Remains => ProfileSyncKind::Default,
        MemberStatus::Banned => ProfileSyncKind::Banned,
        MemberStatus::Kicked => ProfileSyncKind::Kicked,
    }
}

impl SyncMemberResult {
    /// The log entry of this sync: there is one where the profile changed
    /// or the member was removed.
    pub fn create_log(&self) -> (r: Option<ServerLog>)
        ensures
            match r {
                Some(log) => {
                    &&& self.profile_changed || self.member_status != MemberStatus::Remains
                    &&& log matches ServerLog::ServerProfileSync {
                        kind,
                        initiator,
                        user_id,
                        role_changes,
                        nickname_change,
                        relevant_connections,
                    }
                    &&& kind == profile_sync_kind(self.member_status)
                    &&& initiator == self.initiator
                    &&& user_id == self.user_id
                    &&& changes_view(role_changes@) == changes_view(self.role_changes@)
                    &&& nickname_view(nickname_change) == nickname_view(self.nickname_change)
                    &&& relevant_connections@ == self.relevant_connections@
                },
                None => !self.profile_changed && self.member_status == MemberStatus::Remains,
            },
    {
        if self.profile_changed || self.member_status.removed() {
            let kind = match self.member_status {
                MemberStatus::Remains => ProfileSyncKind::Default,
                MemberStatus::Banned => ProfileSyncKind::Banned,
                MemberStatus::Kicked => ProfileSyncKind::Kicked,
            };
            Some(ServerLog::ServerProfileSync {
                kind,
                initiator: self.initiator,
                user_id: self.user_id,
                role_changes: copy_changes(&self.role_changes),
                nickname_change: copy_nickname(&self.nickname_change),
                relevant_connections: copy_haku_ids(&self.relevant_connections),
            })
        } else {
            None
        }
    }
}

/// How many members a sync of a whole server has synced, and how many of
/// their profiles it changed.
#[derive(Debug, Clone, Copy)]
pub struct SyncTally {
    pub total_synced: u64,
    pub total_changed: u64,
}

impl SyncTally {
    /// A sync that has synced no one yet.
    pub fn new() -> (r: SyncTally)
        ensures
            r.total_synced == 0,
            r.total_changed == 0,
    {
        SyncTally { total_synced: 0, total_changed: 0 }
    }

    /// Counts the sync `result`; tells whether it changed the profile, after
    /// which the sync pauses so as not to outrun Discord's rate limits.
    pub fn record(&mut self, result: &SyncMemberResult) -> (pause: bool)
        ensures
            pause == result.profile_changed,
            final(self).total_synced == if old(self).total_synced == u64::MAX {
                u64::MAX
            } else {
                (old(self).total_synced + 1) as u64
            },
            final(self).total_changed == if result.profile_changed && old(self).total_changed < u64::MAX {
                (old(self).total_changed + 1) as u64
            } else {
                old(self).total_changed
            },
    {
        if result.profile_changed {
            self.total_changed = self.total_changed.saturating_add(1);
        }
        self.total_synced = self.total_synced.saturating_add(1);
        result.profile_changed
    }
}

} // verus!
