use mellow::model::connection::{Connection, ConnectionKind, OAuthAuthorisation};
use mellow::model::hakuid::HakuId;
use mellow::model::sync_action::{Criteria, CriteriaItem, Quantifier, Reasoning, SyncAction, SyncActionKind};
use mellow::server::logging::{ProfileSyncKind, ServerLog};
use mellow::syncing::criteria::{member_meets_action_criteria, CriteriaCache};
use mellow::syncing::metadata::{note_missing_patreon, patreon_item_count, roblox_group_ids};
use mellow::syncing::plan::{plan_sync_member, role_name, SyncMemberResult};
use mellow::syncing::response::{format_many, role_flags, sync_response_text};
use mellow::syncing::{
    ConnectionMetadata, MemberStatus, NicknameChange, PatreonPledge, RobloxMembership, RoleChange, RoleChangeKind,
    SyncingInitiator, SyncingIssue,
};
use mellow::syncing::checks::{actions_rankable, ids_unique, place_actions};

fn connection(id: u128, kind: ConnectionKind, sub: &str) -> Connection {
    Connection {
        id: HakuId::new(id),
        sub: sub.to_string(),
        kind,
        username: Some("robloxian".to_string()),
        display_name: Some("Robloxian".to_string()),
        oauth_authorisations: vec![],
    }
}

fn action(id: u128, kind: SyncActionKind, items: Vec<CriteriaItem>, quantifier: Quantifier) -> SyncAction {
    SyncAction { id: HakuId::new(id), kind, criteria: Criteria { items, quantifier }, display_name: format!("action {id}") }
}

fn empty_metadata() -> ConnectionMetadata {
    ConnectionMetadata { issues: vec![], patreon_pledges: vec![], roblox_memberships: vec![] }
}

fn roblox_item() -> CriteriaItem {
    CriteriaItem::HakumiUserConnection { connection_kind: ConnectionKind::Roblox }
}

#[test]
fn quantifier_minimum() {
    assert_eq!(Quantifier::All.minimum(), None);
    assert_eq!(Quantifier::AtLeast { value: 2 }.minimum(), Some(2));
}

#[test]
fn member_status_removed() {
    assert!(!MemberStatus::Remains.removed());
    assert!(MemberStatus::Banned.removed());
    assert!(MemberStatus::Kicked.removed());
}

#[test]
fn criteria_all_and_at_least() {
    let conns = vec![connection(1, ConnectionKind::Roblox, "100")];
    let items = vec![roblox_item(), CriteriaItem::HakumiUserConnection { connection_kind: ConnectionKind::Patreon }];
    let all = action(1, SyncActionKind::ExecuteDocument, items, Quantifier::All);
    let items = vec![roblox_item(), CriteriaItem::HakumiUserConnection { connection_kind: ConnectionKind::Patreon }];
    let one = action(2, SyncActionKind::ExecuteDocument, items, Quantifier::AtLeast { value: 1 });
    let actions = vec![];
    let md = empty_metadata();
    let mut cache = CriteriaCache::new();
    let mut used = vec![];
    let user = Some(HakuId::new(9));
    assert!(!member_meets_action_criteria(user, &conns, &all, &actions, &md, &mut cache, &mut used));
    let mut cache = CriteriaCache::new();
    assert!(member_meets_action_criteria(user, &conns, &one, &actions, &md, &mut cache, &mut used));
    assert!(used.is_empty());
    let mut cache = CriteriaCache::new();
    assert!(!member_meets_action_criteria(None, &conns, &one, &actions, &md, &mut cache, &mut vec![]));
}

#[test]
fn criteria_roblox_groups_and_patreon_tiers() {
    let conns = vec![connection(1, ConnectionKind::Roblox, "100"), connection(2, ConnectionKind::Patreon, "p")];
    let md = ConnectionMetadata {
        issues: vec![],
        patreon_pledges: vec![PatreonPledge {
            campaign_id: "camp".to_string(),
            connection_id: HakuId::new(2),
            tiers: vec!["gold".to_string()],
            user_id: 9,
        }],
        roblox_memberships: vec![RobloxMembership { rank: 50, role: 3, user_id: "100".to_string(), group_id: 77 }],
    };
    let user = Some(HakuId::new(9));
    let check = |item: CriteriaItem| {
        let a = action(5, SyncActionKind::ExecuteDocument, vec![item], Quantifier::All);
        member_meets_action_criteria(user, &conns, &a, &vec![], &md, &mut CriteriaCache::new(), &mut vec![])
    };
    assert!(check(CriteriaItem::RobloxGroupMembership { group_id: 77 }));
    assert!(!check(CriteriaItem::RobloxGroupMembership { group_id: 78 }));
    assert!(check(CriteriaItem::RobloxGroupMembershipRole { role_id: 3, group_id: 77 }));
    assert!(check(CriteriaItem::RobloxGroupMembershipRoleRankInRange { group_id: 77, range_lower: 10, range_upper: 60 }));
    assert!(!check(CriteriaItem::RobloxGroupMembershipRoleRankInRange { group_id: 77, range_lower: 60, range_upper: 90 }));
    assert!(check(CriteriaItem::PatreonCampaignTierSubscription { tier_id: "gold".to_string(), campaign_id: "camp".to_string() }));
    assert!(!check(CriteriaItem::PatreonCampaignTierSubscription { tier_id: "silver".to_string(), campaign_id: "camp".to_string() }));
}

#[test]
fn criteria_records_looked_at_connections() {
    let conns = vec![connection(1, ConnectionKind::Roblox, "100"), connection(2, ConnectionKind::Patreon, "p")];
    let md = ConnectionMetadata {
        issues: vec![],
        patreon_pledges: vec![PatreonPledge {
            campaign_id: "camp".to_string(),
            connection_id: HakuId::new(2),
            tiers: vec!["gold".to_string()],
            user_id: 9,
        }],
        roblox_memberships: vec![],
    };
    let user = Some(HakuId::new(9));
    let items = vec![
        CriteriaItem::PatreonCampaignTierSubscription { tier_id: "gold".to_string(), campaign_id: "camp".to_string() },
        CriteriaItem::RobloxGroupMembership { group_id: 77 },
    ];
    let a = action(5, SyncActionKind::ExecuteDocument, items, Quantifier::All);
    let mut cache = CriteriaCache::new();
    let mut used = vec![];
    // The Roblox item is not met, but its connection was looked at.
    assert!(!member_meets_action_criteria(user, &conns, &a, &vec![], &md, &mut cache, &mut used));
    assert_eq!(used, vec![HakuId::new(2), HakuId::new(1)]);
    // A second evaluation adds nothing twice.
    assert!(!member_meets_action_criteria(user, &conns, &a, &vec![], &md, &mut cache, &mut used));
    assert_eq!(used, vec![HakuId::new(2), HakuId::new(1)]);
    // An item the cache holds as met is not evaluated again.
    let mut fresh = vec![];
    assert!(!member_meets_action_criteria(user, &conns, &a, &vec![], &md, &mut cache, &mut fresh));
    assert_eq!(fresh, vec![HakuId::new(1)]);
    // With a minimum of one, the evaluation stops at the first item met.
    let items = vec![
        CriteriaItem::PatreonCampaignTierSubscription { tier_id: "gold".to_string(), campaign_id: "camp".to_string() },
        CriteriaItem::RobloxGroupMembership { group_id: 77 },
    ];
    let b = action(6, SyncActionKind::ExecuteDocument, items, Quantifier::AtLeast { value: 1 });
    let mut used = vec![];
    assert!(member_meets_action_criteria(user, &conns, &b, &vec![], &md, &mut CriteriaCache::new(), &mut used));
    assert_eq!(used, vec![HakuId::new(2)]);
}

#[test]
fn criteria_on_other_actions() {
    let conns = vec![connection(1, ConnectionKind::Roblox, "100")];
    let base = action(1, SyncActionKind::ExecuteDocument, vec![roblox_item()], Quantifier::All);
    let nested = action(
        2,
        SyncActionKind::ExecuteDocument,
        vec![CriteriaItem::MellowServerSyncingActions { action_ids: vec![HakuId::new(1)], quantifier: Quantifier::All }],
        Quantifier::All,
    );
    let nested_copy = action(
        2,
        SyncActionKind::ExecuteDocument,
        vec![CriteriaItem::MellowServerSyncingActions { action_ids: vec![HakuId::new(1)], quantifier: Quantifier::All }],
        Quantifier::All,
    );
    let actions = vec![base, nested];
    let user = Some(HakuId::new(9));
    assert!(member_meets_action_criteria(user, &conns, &nested_copy, &actions, &empty_metadata(), &mut CriteriaCache::new(), &mut vec![]));
    assert!(!member_meets_action_criteria(user, &vec![], &nested_copy, &actions, &empty_metadata(), &mut CriteriaCache::new(), &mut vec![]));
}

fn plan(actions: Vec<SyncAction>, roles: Vec<u64>, nick: Option<String>, default_nickname: Option<String>) -> mellow::syncing::plan::SyncPlan {
    let names = vec![(10, "Verified".to_string()), (11, "Old".to_string())];
    let conns = vec![connection(1, ConnectionKind::Roblox, "100")];
    plan_sync_member(
        &names,
        &roles,
        500,
        &nick,
        1,
        Some(HakuId::new(9)),
        &conns,
        &actions,
        &default_nickname,
        SyncingInitiator::Manual,
        &empty_metadata(),
    )
    .unwrap()
}

#[test]
fn sync_gives_and_takes_roles() {
    let give = action(1, SyncActionKind::AssignRoles { role_ids: vec![10], can_remove: true }, vec![roblox_item()], Quantifier::All);
    let take = action(
        2,
        SyncActionKind::AssignRoles { role_ids: vec![11], can_remove: true },
        vec![CriteriaItem::HakumiUserConnection { connection_kind: ConnectionKind::GitHub }],
        Quantifier::All,
    );
    let p = plan(vec![give, take], vec![11, 12], None, None);
    assert!(!p.cancelled);
    let r = &p.result;
    assert_eq!(r.role_changes.len(), 2);
    assert_eq!((r.role_changes[0].kind, r.role_changes[0].target_id, r.role_changes[0].display_name.as_str()), (RoleChangeKind::Added, 10, "Verified"));
    assert_eq!((r.role_changes[1].kind, r.role_changes[1].target_id, r.role_changes[1].display_name.as_str()), (RoleChangeKind::Removed, 11, "Old"));
    assert_eq!(p.new_roles, vec![12, 10]);
    assert!(r.profile_changed);
    assert_eq!(r.member_status, MemberStatus::Remains);
    assert_eq!(r.issues, vec![SyncingIssue::MissingConnections]);
    match r.create_log() {
        Some(ServerLog::ServerProfileSync { kind, user_id, role_changes, .. }) => {
            assert_eq!(kind, ProfileSyncKind::Default);
            assert_eq!(user_id, 500);
            assert_eq!(role_changes.len(), 2);
        },
        _ => panic!("no log"),
    }
}

#[test]
fn sync_without_changes_keeps_roles() {
    let give = action(1, SyncActionKind::AssignRoles { role_ids: vec![10], can_remove: true }, vec![roblox_item()], Quantifier::All);
    let p = plan(vec![give], vec![10], None, None);
    assert!(p.result.role_changes.is_empty());
    assert_eq!(p.new_roles, vec![10]);
    assert!(!p.result.profile_changed);
    assert!(p.result.create_log().is_none());
}

#[test]
fn sync_bans_and_stops() {
    let ban = action(1, SyncActionKind::BanMember(Reasoning { reason: Some("alt".to_string()) }), vec![roblox_item()], Quantifier::All);
    let give = action(2, SyncActionKind::AssignRoles { role_ids: vec![10], can_remove: false }, vec![roblox_item()], Quantifier::All);
    let p = plan(vec![ban, give], vec![], None, None);
    assert_eq!(p.result.member_status, MemberStatus::Banned);
    assert!(p.result.role_changes.is_empty());
    assert!(!p.result.profile_changed);
    assert_eq!(p.removal_reason.as_deref(), Some("Met criteria of action 1 — alt"));
    match p.result.create_log() {
        Some(ServerLog::ServerProfileSync { kind, .. }) => assert_eq!(kind, ProfileSyncKind::Banned),
        _ => panic!("no log"),
    }
    let kick = action(1, SyncActionKind::KickMember(Reasoning { reason: None }), vec![roblox_item()], Quantifier::All);
    let p = plan(vec![kick], vec![], None, None);
    assert_eq!(p.result.member_status, MemberStatus::Kicked);
    assert_eq!(p.removal_reason.as_deref(), Some("Met criteria of action 1 — No reason"));
}

#[test]
fn sync_reports_relevant_connections() {
    let group = || CriteriaItem::RobloxGroupMembership { group_id: 77 };
    let give = action(1, SyncActionKind::AssignRoles { role_ids: vec![10], can_remove: false }, vec![group()], Quantifier::All);
    let p = plan(vec![give], vec![], None, None);
    assert_eq!(p.result.relevant_connections, vec![HakuId::new(1)]);
    // Actions after a ban are not evaluated.
    let ban = action(1, SyncActionKind::BanMember(Reasoning { reason: None }), vec![roblox_item()], Quantifier::All);
    let give = action(2, SyncActionKind::AssignRoles { role_ids: vec![10], can_remove: false }, vec![group()], Quantifier::All);
    let p = plan(vec![ban, give], vec![], None, None);
    assert!(p.result.relevant_connections.is_empty());
}

#[test]
fn sync_can_be_cancelled() {
    let give = action(1, SyncActionKind::AssignRoles { role_ids: vec![10], can_remove: false }, vec![roblox_item()], Quantifier::All);
    let cancel = action(2, SyncActionKind::ControlFlowCancel(Reasoning { reason: None }), vec![], Quantifier::All);
    let p = plan(vec![give, cancel], vec![], None, None);
    assert!(p.cancelled);
    assert!(p.result.role_changes.is_empty());
    assert!(!p.result.profile_changed);
}

#[test]
fn sync_sets_the_default_nickname() {
    let p = plan(vec![], vec![], Some("old".to_string()), Some("{roblox_username}".to_string()));
    assert_eq!(p.target_nickname.as_deref(), Some("robloxian"));
    let change = p.result.nickname_change.as_ref().unwrap();
    assert_eq!((change.0.as_deref(), change.1.as_deref()), (Some("old"), Some("robloxian")));
    assert!(p.result.profile_changed);
    let p = plan(vec![], vec![], Some("Robloxian".to_string()), Some("{roblox_display_name}".to_string()));
    assert!(p.result.nickname_change.is_none());
    let p = plan(vec![], vec![], None, Some("{something}".to_string()));
    assert!(p.target_nickname.is_none());
}

#[test]
fn role_names_fall_back() {
    let names = vec![(1, "One".to_string())];
    assert_eq!(role_name(&names, 1), "One");
    assert_eq!(role_name(&names, 2), "Unknown Role");
}

fn result(profile_changed: bool, changes: Vec<RoleChange>, issues: Vec<SyncingIssue>) -> SyncMemberResult {
    SyncMemberResult {
        initiator: SyncingInitiator::Manual,
        issues,
        role_changes: changes,
        member_status: MemberStatus::Remains,
        profile_changed,
        nickname_change: None,
        relevant_connections: vec![],
        user_id: 5,
    }
}

fn change(kind: RoleChangeKind, name: &str) -> RoleChange {
    RoleChange { kind, target_id: 1, display_name: name.to_string() }
}

const FOOTER: &str = "\n[<:gear_fill:1224667889592700950>  Your Server Preferences <:external_link:1225472071417729065>](<https://hakumi.cafe/mellow/server/3/user_settings?mt=tok>)   •  [<:personraisedhand:1219234152709095424> Get Support](<https://discord.com/invite/rs3r4dQu9P>)";

#[test]
fn sync_answers() {
    let r = result(true, vec![change(RoleChangeKind::Added, "A")], vec![]);
    assert_eq!(
        sync_response_text(&r, None, 5, 3, "tok", ""),
        format!("## <:check2circle:1219235152580837419>  Your server profile has been updated.\nYou have been assigned new roles, hold them dearly to your heart! ♡(>ᴗ•)\n```diff\n+ A```{FOOTER}")
    );
    let r = result(true, vec![change(RoleChangeKind::Added, "A"), change(RoleChangeKind::Removed, "B")], vec![]);
    assert_eq!(
        sync_response_text(&r, Some(8), 5, 3, "tok", ""),
        format!("## <:check2circle:1219235152580837419>  Their server profile has been updated.\n<@5> has been assigned and retracted roles, ...equality! o(>ω<)o\n```diff\n+ A\n- B```{FOOTER}")
    );
    let r = result(true, vec![change(RoleChangeKind::Removed, "B")], vec![SyncingIssue::MissingConnections]);
    assert_eq!(
        sync_response_text(&r, None, 5, 3, "tok", "issue"),
        format!("## There was an issue while syncing your profile.\nissue\n```diff\n- B```{FOOTER}")
    );
    let r = result(false, vec![], vec![SyncingIssue::MissingConnections]);
    assert_eq!(sync_response_text(&r, None, 5, 3, "tok", "issue"), format!("## There was an issue while syncing your profile.\nissue\n{FOOTER}"));
    let r = result(false, vec![], vec![]);
    assert_eq!(
        sync_response_text(&r, Some(1), 5, 3, "tok", ""),
        format!("## <:mellow_squircled:1225413361777508393>  Their server profile is already up to par!\nAccording to my simulated brain, there's nothing to change here, they're all set!\nIf you were expecting a *different* result, you may need to try again in a few minutes, apologies!\n{FOOTER}")
    );
}

#[test]
fn role_flags_find_both_kinds() {
    assert_eq!(role_flags(&vec![]), (false, false));
    assert_eq!(role_flags(&vec![change(RoleChangeKind::Removed, "x")]), (false, true));
    assert_eq!(role_flags(&vec![change(RoleChangeKind::Added, "x"), change(RoleChangeKind::Removed, "y")]), (true, true));
}

#[test]
fn issue_texts() {
    let issues = vec![SyncingIssue::MissingConnections, SyncingIssue::MissingOAuthAuthorisation(ConnectionKind::Patreon)];
    let text = format_many(&issues, 3, "web", &vec![String::new(), "req".to_string()]);
    assert_eq!(
        text,
        "You haven't given this server access to all connections yet, fix that [here](<https://hakumi.cafe/mellow/server/3/user_settings?mt=web>)!\nYour Patreon connection was invalidated, please [reconnect it](<https://www.patreon.com/oauth2/authorize?client_id=BaKp_8PIeBxx0cfJoEEaVxVQMxD3c_IUFS_qCSu5gNFnXLL5c4Qw4YMPtgMJG-n9&redirect_uri=https%3A%2F%2Fapi-new.hakumi.cafe%2Fv1%2Fconnection_callback%2F4&scope=identity%20identity.memberships&response_type=code&state=m1-req>)."
    );
}

#[test]
fn metadata_lists_each_group_once() {
    let a = action(
        1,
        SyncActionKind::ExecuteDocument,
        vec![
            CriteriaItem::RobloxGroupMembership { group_id: 5 },
            CriteriaItem::PatreonCampaignTierSubscription { tier_id: "t".to_string(), campaign_id: "c".to_string() },
            CriteriaItem::RobloxGroupMembershipRole { role_id: 1, group_id: 6 },
        ],
        Quantifier::All,
    );
    let b = action(
        2,
        SyncActionKind::ExecuteDocument,
        vec![
            CriteriaItem::RobloxGroupMembershipRoleRankInRange { group_id: 5, range_lower: 1, range_upper: 2 },
            CriteriaItem::PatreonCampaignTierSubscription { tier_id: "u".to_string(), campaign_id: "c".to_string() },
        ],
        Quantifier::All,
    );
    let actions = vec![a, b];
    assert_eq!(roblox_group_ids(&actions), vec![5, 6]);
    assert_eq!(patreon_item_count(&actions), 2);
    let mut issues = vec![];
    note_missing_patreon(&mut issues);
    note_missing_patreon(&mut issues);
    assert_eq!(issues, vec![SyncingIssue::MissingOAuthAuthorisation(ConnectionKind::Patreon)]);
}

#[test]
fn nickname_changes_copy() {
    let n = Some(NicknameChange(None, Some("x".to_string())));
    let c = mellow::syncing::copy_nickname(&n).unwrap();
    assert_eq!((c.0, c.1.as_deref()), (None, Some("x")));
}

#[test]
fn oauth_grants() {
    let mut grant = OAuthAuthorisation {
        id: 1,
        token_type: "Bearer".to_string(),
        expires_at: 100,
        access_token: "a".to_string(),
        refresh_token: "r".to_string(),
    };
    assert!(grant.needs_refresh(101));
    assert!(!grant.needs_refresh(100));
    assert_eq!(grant.authorization_header(), "Bearer a");
    let refreshed = mellow::patreon::PatreonRefreshResult::new(3600, "Bearer".to_string(), "b".to_string(), "s".to_string());
    assert_eq!(refreshed.expires_in(), 3600);
    grant.apply_refresh(refreshed, 3700);
    assert_eq!((grant.expires_at, grant.access_token.as_str(), grant.refresh_token.as_str()), (3700, "b", "s"));
}

#[test]
fn sync_stops_at_a_document_action() {
    let doc = action(1, SyncActionKind::ExecuteDocument, vec![], Quantifier::All);
    let plan = plan_sync_member(
        &vec![],
        &vec![],
        500,
        &None,
        1,
        None,
        &vec![],
        &vec![doc],
        &None,
        SyncingInitiator::Manual,
        &empty_metadata(),
    );
    assert!(plan.is_none());
    let ban = action(1, SyncActionKind::BanMember(Reasoning { reason: None }), vec![], Quantifier::All);
    let doc = action(2, SyncActionKind::ExecuteDocument, vec![], Quantifier::All);
    let plan = plan_sync_member(&vec![], &vec![], 500, &None, 1, None, &vec![], &vec![ban, doc], &None, SyncingInitiator::Manual, &empty_metadata());
    assert_eq!(plan.unwrap().result.member_status, MemberStatus::Banned);
}

#[test]
fn sync_stops_before_cycles_it_never_reaches() {
    let refers = |id: u128, to: u128, kind: SyncActionKind| {
        action(
            id,
            kind,
            vec![CriteriaItem::MellowServerSyncingActions { action_ids: vec![HakuId::new(to)], quantifier: Quantifier::All }],
            Quantifier::All,
        )
    };
    let run = |actions: Vec<SyncAction>| {
        plan_sync_member(
            &vec![],
            &vec![],
            500,
            &None,
            1,
            Some(HakuId::new(9)),
            &vec![connection(1, ConnectionKind::Roblox, "100")],
            &actions,
            &None,
            SyncingInitiator::Manual,
            &empty_metadata(),
        )
    };
    let give = || SyncActionKind::AssignRoles { role_ids: vec![10], can_remove: false };
    // A cycle after a met ban is never evaluated.
    let ban = action(1, SyncActionKind::BanMember(Reasoning { reason: None }), vec![roblox_item()], Quantifier::All);
    let plan = run(vec![ban, refers(2, 3, give()), refers(3, 2, give())]);
    assert_eq!(plan.unwrap().result.member_status, MemberStatus::Banned);
    // Where the pass reaches it, the sync cannot go on.
    assert!(run(vec![refers(2, 3, give()), refers(3, 2, give())]).is_none());
    // Two actions may share an id: what names it names the first.
    let first = action(4, give(), vec![roblox_item()], Quantifier::All);
    let second = action(4, SyncActionKind::AssignRoles { role_ids: vec![11], can_remove: false }, vec![], Quantifier::All);
    let plan = run(vec![first, second, refers(5, 4, SyncActionKind::AssignRoles { role_ids: vec![12], can_remove: false })]).unwrap();
    assert_eq!(plan.new_roles, vec![10, 11, 12]);
}

#[test]
fn action_checks() {
    let refers = |id: u128, to: u128| {
        action(
            id,
            SyncActionKind::ExecuteDocument,
            vec![CriteriaItem::MellowServerSyncingActions { action_ids: vec![HakuId::new(to)], quantifier: Quantifier::All }],
            Quantifier::All,
        )
    };
    let chain = vec![refers(1, 2), refers(2, 3), action(3, SyncActionKind::ExecuteDocument, vec![], Quantifier::All)];
    assert!(ids_unique(&chain));
    assert!(actions_rankable(&chain));
    let cycle = vec![refers(1, 2), refers(2, 1)];
    assert!(ids_unique(&cycle));
    assert!(!actions_rankable(&cycle));
    assert!(!actions_rankable(&vec![refers(1, 1)]));
    assert!(actions_rankable(&vec![refers(1, 9)]));
    // A long chain listed with each action before the one it names.
    let long: Vec<SyncAction> = (1..=8).map(|i| refers(i, i + 1)).collect();
    assert!(actions_rankable(&long));
    // A cycle behind actions that are fine.
    let mut tail = vec![refers(1, 2), refers(2, 3), refers(3, 4), refers(4, 2)];
    tail.push(action(5, SyncActionKind::ExecuteDocument, vec![], Quantifier::All));
    assert!(!actions_rankable(&tail));
    assert_eq!(place_actions(&tail), vec![false, false, false, false, true]);
    // A duplicated id names the first action with it.
    let dup = vec![action(7, SyncActionKind::ExecuteDocument, vec![], Quantifier::All), refers(7, 7)];
    assert_eq!(place_actions(&dup), vec![true, true]);
    assert!(!ids_unique(&vec![refers(1, 2), refers(1, 3)]));
}

#[test]
fn criteria_cache_holds_what_was_evaluated() {
    let conns = vec![connection(1, ConnectionKind::Roblox, "100")];
    let base = action(1, SyncActionKind::ExecuteDocument, vec![roblox_item()], Quantifier::All);
    let unrelated = action(3, SyncActionKind::ExecuteDocument, vec![roblox_item()], Quantifier::All);
    let nested = action(
        2,
        SyncActionKind::ExecuteDocument,
        vec![CriteriaItem::MellowServerSyncingActions { action_ids: vec![HakuId::new(1)], quantifier: Quantifier::All }],
        Quantifier::All,
    );
    let nested_copy = action(
        2,
        SyncActionKind::ExecuteDocument,
        vec![CriteriaItem::MellowServerSyncingActions { action_ids: vec![HakuId::new(1)], quantifier: Quantifier::All }],
        Quantifier::All,
    );
    let actions = vec![base, unrelated, nested];
    let mut cache = CriteriaCache::new();
    let user = Some(HakuId::new(9));
    assert!(member_meets_action_criteria(user, &conns, &nested_copy, &actions, &empty_metadata(), &mut cache, &mut vec![]));
    assert_eq!(cache.get(HakuId::new(2), 0), Some(true));
    assert_eq!(cache.get(HakuId::new(1), 0), Some(true));
    assert_eq!(cache.get(HakuId::new(3), 0), None);
    // Held as met, an item stays so when evaluated again without the connection.
    assert!(member_meets_action_criteria(user, &vec![], &nested_copy, &actions, &empty_metadata(), &mut cache, &mut vec![]));
    assert_eq!(cache.get(HakuId::new(1), 0), Some(true));
}
