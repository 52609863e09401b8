use mellow::model::connection::{Connection, ConnectionKind};
use mellow::model::discord::{CachedOnboarding, CachedUser};
use mellow::model::hakuid::HakuId;
use mellow::model::user::{ConnectionReference, User, UserSettings};
use mellow::server::logging::{
    action_log_description, message_groups, settings_update_log, ActionLog, document_result_title, nickname_text, onboarding_title, profile_sync_title_text, role_changes_text,
    tracker_description, ProfileSyncKind, ServerLog,
};
use mellow::server::settings::{setting_changes_of, LoggingSettings, SettingChange, SettingValue};
use mellow::syncing::{NicknameChange, RoleChange, RoleChangeKind, SyncingInitiator};
use mellow::visual_scripting::action_tracker::ActionTrackerItem;
use mellow::visual_scripting::element::ElementKind;

#[test]
fn onboarding_logs_are_always_sent() {
    let onboarding = ServerLog::UserCompletedOnboarding { user_id: 1 };
    assert_eq!(onboarding.discriminant(), 4);
    assert!(onboarding.is_sent(0));
    let doc = ServerLog::VisualScriptingDocumentResult { items: vec![], document_name: "d".to_string() };
    assert_eq!(doc.discriminant(), 8);
    assert!(!doc.is_sent(2));
    assert!(doc.is_sent(8 | 2));
    let sync = ServerLog::ServerProfileSync {
        kind: ProfileSyncKind::default(),
        initiator: SyncingInitiator::Automatic,
        user_id: 1,
        role_changes: vec![],
        nickname_change: None,
        relevant_connections: vec![],
    };
    assert_eq!(sync.discriminant(), 2);
    assert!(sync.is_sent(3));
    assert!(!sync.is_sent(1));
}

#[test]
fn sync_titles() {
    assert_eq!(profile_sync_title_text(ProfileSyncKind::Default, SyncingInitiator::Automatic, 5, ""), "<@5> was automatically synced");
    assert_eq!(
        profile_sync_title_text(ProfileSyncKind::Default, SyncingInitiator::ForcedBy(6), 5, ""),
        "<@6> forcefully synced <@5>'s profile"
    );
    assert_eq!(profile_sync_title_text(ProfileSyncKind::Default, SyncingInitiator::Manual, 5, ""), "<@5> synced their profile");
    assert_eq!(
        profile_sync_title_text(ProfileSyncKind::Default, SyncingInitiator::VisualScriptingDocument(HakuId::new(1)), 5, "Doc"),
        "<@5> was synced by <:document:1222904218499940395> Doc"
    );
    assert_eq!(profile_sync_title_text(ProfileSyncKind::Banned, SyncingInitiator::Manual, 5, ""), "<@5> has been banned");
    assert_eq!(profile_sync_title_text(ProfileSyncKind::Kicked, SyncingInitiator::Manual, 5, ""), "<@5> has been kicked");
}

#[test]
fn diff_blocks() {
    let changes = vec![
        RoleChange { kind: RoleChangeKind::Added, target_id: 1, display_name: "A".to_string() },
        RoleChange { kind: RoleChangeKind::Removed, target_id: 2, display_name: "B".to_string() },
    ];
    assert_eq!(role_changes_text(&changes), "```diff\n+ A\n- B```");
    assert_eq!(nickname_text(&NicknameChange(Some("old".to_string()), Some("new".to_string()))), "```diff\n- old\n+ new```");
    assert_eq!(nickname_text(&NicknameChange(None, Some("new".to_string()))), "```diff\n+ new```");
}

#[test]
fn document_results() {
    let items = vec![
        ActionTrackerItem::Error(ElementKind::SyncMember, "boom".to_string()),
        ActionTrackerItem::AssignedMemberRole("5".to_string(), "9".to_string()),
        ActionTrackerItem::RemovedMemberRole("5".to_string(), "9".to_string()),
        ActionTrackerItem::BannedMember("5".to_string()),
        ActionTrackerItem::KickedMember("5".to_string()),
        ActionTrackerItem::CreatedMessage(2, 3),
        ActionTrackerItem::DeletedMessage("2".to_string(), "5".to_string()),
        ActionTrackerItem::CreatedThread(2, 4),
    ];
    let expected = [
        "* Encountered an error at **Sync Member**\n```diff\n- boom```\n",
        "* Assigned <@&9> to <@5>",
        "* Removed <@&9> from <@5>",
        "* Banned <@5> from the server",
        "* Kicked <@5> from the server",
        "* Sent a message in <#2>: https://discord.com/channels/1/2/3",
        "* Deleted a message in <#2> by <@5>",
        "* Started a new thread in <#2>: <#4>",
    ]
    .join("\n");
    assert_eq!(tracker_description(&items, 1), expected);
    assert_eq!(document_result_title("Doc"), "Result for <:document:1222904218499940395> Doc");
    assert_eq!(onboarding_title("Name"), "Name completed onboarding");
}

fn settings(nick: Option<&str>, types: u8, channel: Option<u64>) -> LoggingSettings {
    LoggingSettings { default_nickname: nick.map(|x| x.to_string()), logging_types: types, logging_channel_id: channel }
}

#[test]
fn setting_changes_are_listed() {
    assert!(setting_changes_of(&settings(Some("a"), 1, Some(5)), &settings(Some("a"), 1, Some(5))).is_empty());
    let changes = setting_changes_of(&settings(None, 1, Some(5)), &settings(Some("n"), 3, None));
    assert_eq!(changes.len(), 3);
    assert!(matches!(&changes[0], SettingChange::Created { name, value: SettingValue::Text(v) } if name == "Default Nickname" && v == "n"));
    assert!(matches!(&changes[1], SettingChange::Updated { name, old: SettingValue::Number(1), new: SettingValue::Number(3) } if name == "Active Events"));
    assert!(matches!(&changes[2], SettingChange::Deleted { name, value: SettingValue::Number(5) } if name == "Channel"));
    let changes = setting_changes_of(&settings(Some("a"), 1, Some(5)), &settings(Some("b"), 1, Some(6)));
    assert!(matches!(&changes[0], SettingChange::Updated { old: SettingValue::Text(a), new: SettingValue::Text(b), .. } if a == "a" && b == "b"));
    assert!(matches!(&changes[1], SettingChange::Updated { old: SettingValue::Number(5), new: SettingValue::Number(6), .. }));
}

fn conn(id: u128, kind: ConnectionKind, sub: &str, name: Option<&str>, username: Option<&str>) -> Connection {
    Connection {
        id: HakuId::new(id),
        sub: sub.to_string(),
        kind,
        username: username.map(|x| x.to_string()),
        display_name: name.map(|x| x.to_string()),
        oauth_authorisations: vec![],
    }
}

#[test]
fn connections_are_shown_with_links() {
    assert_eq!(
        conn(1, ConnectionKind::Discord, "11", Some("Me"), None).display(),
        "<:discord:1137058089980416080> Discord — [Me](https://discord.com/users/11)"
    );
    assert_eq!(
        conn(1, ConnectionKind::GitHub, "11", None, Some("me")).display(),
        "<:github:1143983126792642661> GitHub — [Unknown](https://github.com/me)"
    );
    assert_eq!(
        conn(1, ConnectionKind::GitHub, "11", None, None).display(),
        "<:github:1143983126792642661> GitHub — [Unknown](https://github.com/@unknown)"
    );
    assert_eq!(
        conn(1, ConnectionKind::Roblox, "22", Some("R"), None).display(),
        "<:roblox:1175038688271536169> Roblox — [R](https://www.roblox.com/users/22)"
    );
    assert_eq!(conn(1, ConnectionKind::YouTube, "x", None, None).display(), "placeholder");
    assert_eq!(
        conn(1, ConnectionKind::Patreon, "33", Some("P"), None).display(),
        "<:Patreon:1219706758742933586> Patreon — [P](https://www.patreon.com/user?u=33)"
    );
}

#[test]
fn users_and_the_connections_a_server_sees() {
    let user = User {
        id: HakuId::new(1),
        connections: vec![
            conn(1, ConnectionKind::Discord, "11", None, None),
            conn(2, ConnectionKind::Roblox, "22", None, None),
            conn(3, ConnectionKind::Patreon, "33", None, None),
        ],
    };
    assert!(user.has_connection("22", ConnectionKind::Roblox));
    assert!(!user.has_connection("22", ConnectionKind::Discord));
    let settings = UserSettings {
        user_connections: vec![ConnectionReference { id: HakuId::new(3) }, ConnectionReference { id: HakuId::new(1) }],
    };
    let seen: Vec<u128> = settings.server_connections(&user).iter().map(|c| c.id.value).collect();
    assert_eq!(seen, vec![1, 3]);
}

#[test]
fn discord_users() {
    let user = CachedUser { id: 42, name: "name".to_string(), global_name: Some("Global".to_string()), avatar: Some("hash".to_string()) };
    assert_eq!(user.display_name(), "Global");
    assert_eq!(user.avatar_url().as_deref(), Some("https://cdn.discordapp.com/avatars/42/hash.webp"));
    let plain = CachedUser { id: 1, name: "name".to_string(), global_name: None, avatar: None };
    assert_eq!(plain.display_name(), "name");
    assert!(plain.avatar_url().is_none());
    assert!(CachedOnboarding { enabled: true }.enabled);
}

#[test]
fn settings_updates_give_an_action_log() {
    assert!(settings_update_log(&settings(Some("a"), 1, Some(5)), &settings(Some("a"), 1, Some(5)), None, 9).is_none());
    let author = Some(HakuId::new(3));
    match settings_update_log(&settings(None, 1, Some(5)), &settings(Some("n"), 3, Some(5)), author, 9) {
        Some(ServerLog::ActionLog(entry)) => {
            assert_eq!(entry.kind, "mellow.server.discord_logging.updated");
            assert_eq!(entry.author, author);
            assert_eq!(entry.server_id, 9);
            assert_eq!(entry.data_changes.len(), 2);
            let log = ServerLog::ActionLog(entry);
            assert_eq!(log.discriminant(), 1);
            assert!(log.is_sent(1));
            assert!(!log.is_sent(2));
        },
        _ => panic!("no action log"),
    }
}

#[test]
fn action_log_description_lists_changes() {
    let entry = ActionLog {
        kind: "mellow.server.discord_logging.updated".to_string(),
        author: None,
        server_id: 9,
        data_changes: vec![
            SettingChange::Created { name: "Default Nickname".to_string(), value: SettingValue::Text("n".to_string()) },
            SettingChange::Updated { name: "Active Events".to_string(), old: SettingValue::Number(1), new: SettingValue::Number(3) },
            SettingChange::Deleted { name: "Channel".to_string(), value: SettingValue::Number(5) },
        ],
    };
    assert_eq!(
        action_log_description(&entry, "HAKUMI"),
        "### HAKUMI updated the logging settings\n* **Default Nickname** set to `n`\n* **Active Events** changed from 1 to 3\n* **Channel** removed, was 5"
    );
    let other = ActionLog { kind: "mellow.command.created".to_string(), author: None, server_id: 9, data_changes: vec![] };
    assert_eq!(action_log_description(&other, "x"), "### x mellow.command.created\n");
}

#[test]
fn embeds_are_grouped_into_messages() {
    let groups = message_groups((1..=23).collect::<Vec<u32>>(), 10);
    assert_eq!(groups.len(), 3);
    assert_eq!(groups[0], (1..=10).collect::<Vec<u32>>());
    assert_eq!(groups[1], (11..=20).collect::<Vec<u32>>());
    assert_eq!(groups[2], vec![21, 22, 23]);
    assert!(message_groups(Vec::<u32>::new(), 10).is_empty());
    assert_eq!(message_groups(vec![1u32, 2], 2), vec![vec![1, 2]]);
}

#[test]
fn roblox_subjects_are_collected_in_order() {
    let conn = |kind: ConnectionKind, sub: &str| Connection {
        id: HakuId::new(1),
        sub: sub.to_string(),
        kind,
        username: None,
        display_name: None,
        oauth_authorisations: vec![],
    };
    let mut out = vec!["0".to_string()];
    mellow::model::connection::push_roblox_subjects(
        &mut out,
        &vec![conn(ConnectionKind::Roblox, "1"), conn(ConnectionKind::Patreon, "p"), conn(ConnectionKind::Roblox, "2")],
    );
    assert_eq!(out, vec!["0", "1", "2"]);
}
