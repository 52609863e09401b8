use mellow::commands::{CommandDefinition, CommandKind};
use mellow::interaction::{
    account_not_connected_text, already_connected_text, command_reply, custom_command_reply, defer_failure_text,
    fetch_failed_reply, forceful_disabled_text, guild_icon_url, guild_splash_url, not_set_up_text,
    server_connected_text, sign_up_text, sync_all_summary, unknown_command_reply, CommandResponse, ReplyKind, EPHEMERAL,
};
use mellow::model::hakuid::HakuId;
use mellow::onboarding::{awaits_verification, take_finished, take_pending, PendingVerification};
use mellow::patreon::{
    pledges_from_identity, refresh_query, refresh_status, Campaign, Campaign2, CurrentlyEntitledTier, Member,
    MemberAttributes, RefreshStatus, Relationship, Relationships, Tier, Tier2, UserIdentity, UserIdentityField,
};
use mellow::signature::{absolutesolver, SignatureError};
use mellow::visual_scripting::document::{Document, ServerCommand};
use mellow::visual_scripting::variable::{Variable, VariableKind};
use mellow::syncing::plan::{SyncMemberResult, SyncTally};
use mellow::syncing::sign_ups::SignUps;
use mellow::syncing::{MemberStatus, SyncingInitiator};

const SECRET: &[u8] = b"key";
const BODY: &[u8] = b"The quick brown fox jumps over the lazy dog";
const TAG: &str = "f7bc83f430538424b13298e6aa6fb143ef4d59a14946175997479dbc2d1a3cd8";

#[test]
fn signatures_are_checked() {
    assert_eq!(absolutesolver(SECRET, BODY, TAG.as_bytes()), Ok(()));
    assert_eq!(absolutesolver(SECRET, BODY, TAG.to_uppercase().as_bytes()), Ok(()));
    assert_eq!(absolutesolver(b"other", BODY, TAG.as_bytes()), Err(SignatureError::Mismatch));
    assert_eq!(absolutesolver(SECRET, b"changed", TAG.as_bytes()), Err(SignatureError::Mismatch));
    assert_eq!(absolutesolver(SECRET, BODY, &TAG.as_bytes()[..62]), Err(SignatureError::Mismatch));
    assert_eq!(absolutesolver(SECRET, BODY, b"abc"), Err(SignatureError::InvalidHex));
    assert_eq!(absolutesolver(SECRET, BODY, b"zz"), Err(SignatureError::InvalidHex));
}

#[test]
fn refresh_queries_are_escaped() {
    assert_eq!(
        refresh_query("id", "s/cret", "a b&c"),
        "client_id=id&client_secret=s%2Fcret&grant_type=refresh_token&refresh_token=a%20b%26c"
    );
}

#[test]
fn refresh_statuses() {
    assert_eq!(refresh_status(200), RefreshStatus::Refreshed);
    assert_eq!(refresh_status(204), RefreshStatus::Refreshed);
    assert_eq!(refresh_status(401), RefreshStatus::Unauthorized);
    assert_eq!(refresh_status(500), RefreshStatus::Failed);
    assert_eq!(refresh_status(302), RefreshStatus::Failed);
}

fn membership(campaign: &str, tiers: &[&str]) -> UserIdentityField {
    UserIdentityField::Member(Member {
        attributes: MemberAttributes { patron_status: Some("active_patron".to_string()) },
        relationships: Relationships {
            campaign: Relationship { data: Campaign { id: campaign.to_string() } },
            currently_entitled_tiers: Relationship {
                data: CurrentlyEntitledTier(tiers.iter().map(|x| Tier { id: x.to_string() }).collect()),
            },
        },
    })
}

#[test]
fn pledges_come_from_memberships() {
    let identity = UserIdentity {
        included: Some(vec![UserIdentityField::Tier, membership("c1", &["t1", "t2"]), UserIdentityField::Campaign, membership("c2", &[])]),
    };
    let pledges = pledges_from_identity(&identity, HakuId::new(3), 9);
    assert_eq!(pledges.len(), 2);
    assert_eq!(pledges[0].campaign_id, "c1");
    assert_eq!(pledges[0].tiers, vec!["t1", "t2"]);
    assert_eq!(pledges[0].connection_id, HakuId::new(3));
    assert_eq!(pledges[0].user_id, 9);
    assert_eq!(pledges[1].campaign_id, "c2");
    assert!(pledges_from_identity(&UserIdentity { included: None }, HakuId::new(3), 9).is_empty());
}

#[test]
fn campaigns_become_variables() {
    let campaign = Campaign2 { tiers: vec![Tier2 { patron_count: 4 }, Tier2 { patron_count: 0 }] };
    let v: Variable = campaign.into();
    match &v.get("tiers").kind {
        VariableKind::List(tiers) => {
            assert_eq!(tiers.len(), 2);
            assert!(matches!(tiers[0].get("patron_count").kind, VariableKind::UnsignedInteger(4)));
            assert!(matches!(tiers[1].get("patron_count").kind, VariableKind::UnsignedInteger(0)));
        },
        _ => panic!("not a list"),
    }
}

fn command(active: bool, is_ephemeral: bool) -> ServerCommand {
    ServerCommand {
        document: Document {
            id: HakuId::new(1),
            name: "d".to_string(),
            active,
            definition: vec![mellow::visual_scripting::element::Element {
                kind: mellow::visual_scripting::element::ElementKind::Nothing,
            }],
        },
        is_ephemeral,
    }
}

#[test]
fn interaction_replies() {
    let r = custom_command_reply(&command(true, true));
    assert_eq!((r.kind, r.flags, r.content), (ReplyKind::Deferred, Some(EPHEMERAL), None));
    let r = custom_command_reply(&command(true, false));
    assert_eq!((r.kind, r.flags), (ReplyKind::Deferred, None));
    let r = custom_command_reply(&command(false, false));
    assert_eq!(r.kind, ReplyKind::Message);
    assert_eq!(
        r.content.as_deref(),
        Some("<:niko_yawn:1226170445242568755> this custom command currently does absolutely nothing... go tell a server admin about it!!!")
    );
    let r = fetch_failed_reply("oops");
    assert_eq!(r.flags, Some(EPHEMERAL));
    assert!(r.content.unwrap().ends_with("oopsie daisy!\n```sh\noops```"));
    let r = command_reply(&CommandResponse::ephemeral("hi".to_string()));
    assert_eq!((r.kind, r.flags, r.content.as_deref()), (ReplyKind::Message, Some(EPHEMERAL), Some("hi")));
    let r = command_reply(&CommandResponse::Defer);
    assert_eq!((r.kind, r.flags), (ReplyKind::Deferred, Some(EPHEMERAL)));
    let r = unknown_command_reply();
    assert_eq!(r.flags, None);
}

#[test]
fn command_texts() {
    assert_eq!(
        defer_failure_text(true, "bad"),
        "<:niko_look_left:1227198516590411826> something unexpected happened while communicating with discord...\n```diff\n- bad```"
    );
    assert!(defer_failure_text(false, "bad").contains(", not sure what exactly though!"));
    assert!(sign_up_text("Guild", 77).contains("Welcome to *Guild*"));
    assert!(sign_up_text("Guild", 77).contains("state=mellow_new.77>"));
    assert!(forceful_disabled_text(5).contains("https://hakumi.cafe/mellow/server/5/settings/syncing"));
    assert_eq!(
        not_set_up_text(8),
        "## <:niko_look_left:1227198516590411826>  Cannot sync member\n<@8> has not yet been set up with mellow... ┐(￣ヘ￣)┌"
    );
    assert_eq!(sync_all_summary(3, 1), "## Successfully synced 3 profiles\n1 profile(s) in total were updated.");
    assert!(already_connected_text(4).ends_with("[here](https://hakumi.cafe/mellow/server/4)."));
    assert!(server_connected_text(4).contains("[here](https://hakumi.cafe/mellow/server/4)."));
    assert!(account_not_connected_text(4).ends_with("state=setup_4)!"));
    assert_eq!(guild_icon_url(4, "abc"), "https://cdn.discordapp.com/icons/4/abc.webp");
    assert_eq!(guild_splash_url(4, "abc"), "https://cdn.discordapp.com/splashes/4/abc.webp?size=1032");
}

#[test]
fn commands_are_registered_per_kind() {
    let c = CommandDefinition {
        name: "sync".to_string(),
        no_dm: true,
        is_user: true,
        is_slash: true,
        is_message: false,
        description: None,
        default_member_permissions: Some("268435456".to_string()),
    };
    assert_eq!(c.kinds(), vec![CommandKind::User, CommandKind::Slash]);
    assert_eq!(c.description_for(CommandKind::User), "");
    assert_eq!(c.description_for(CommandKind::Slash), "there is no description yet, how sad...");
    assert_eq!(c.permission_bits(), Ok(Some(268435456)));
    let bad = CommandDefinition { default_member_permissions: Some("x".to_string()), description: Some("d".to_string()), ..c };
    assert_eq!(bad.permission_bits(), Err(()));
    assert_eq!(bad.description_for(CommandKind::Message), "d");
}

#[test]
fn pending_members() {
    let mut pending = vec![(1, 2), (3, 4), (1, 2)];
    assert!(take_pending(&mut pending, (1, 2)));
    assert_eq!(pending, vec![(3, 4)]);
    assert!(!take_pending(&mut pending, (1, 2)));
    assert!(awaits_verification(&vec![], false, true));
    assert!(!awaits_verification(&vec![1], false, true));
    assert!(!awaits_verification(&vec![], true, true));
}

#[test]
fn verification_waits_end_after_590_seconds() {
    let entry = |user_id: u64, since: u64| PendingVerification { guild_id: 1, user_id, since };
    let mut entries = vec![entry(1, 0), entry(2, 500_000), entry(3, 10_000)];
    let done = take_finished(&mut entries, 600_000);
    let done_ids: Vec<u64> = done.iter().map(|x| x.user_id).collect();
    let kept_ids: Vec<u64> = entries.iter().map(|x| x.user_id).collect();
    assert_eq!(done_ids, vec![1, 3]);
    assert_eq!(kept_ids, vec![2]);
}

#[test]
fn sign_ups_are_taken_back_once() {
    let mut sign_ups = SignUps::new();
    sign_ups.create_sign_up(1, 10, "first".to_string(), 100);
    sign_ups.create_sign_up(2, 20, "other".to_string(), 150);
    sign_ups.create_sign_up(1, 11, "second".to_string(), 200);
    let taken = sign_ups.take(1).unwrap();
    assert_eq!((taken.created_at, taken.guild_id, taken.interaction_token.as_str()), (200, 11, "second"));
    assert!(sign_ups.take(1).is_none());
    assert_eq!(sign_ups.take(2).unwrap().interaction_token, "other");
}

#[test]
fn server_syncs_are_tallied() {
    let result = |changed: bool| SyncMemberResult {
        initiator: SyncingInitiator::Automatic,
        issues: vec![],
        role_changes: vec![],
        member_status: MemberStatus::Remains,
        profile_changed: changed,
        nickname_change: None,
        relevant_connections: vec![],
        user_id: 1,
    };
    let mut tally = SyncTally::new();
    assert!(tally.record(&result(true)));
    assert!(!tally.record(&result(false)));
    assert!(!tally.record(&result(false)));
    assert_eq!((tally.total_synced, tally.total_changed), (3, 1));
    assert_eq!(sync_all_summary(tally.total_synced, tally.total_changed), "## Successfully synced 3 profiles\n1 profile(s) in total were updated.");
}
