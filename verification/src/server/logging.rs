//! The entries of a server's log, which of them a server asks for, and the
//! text that each is shown with.
use vstd::prelude::*;
use crate::text;
use crate::model::hakuid::HakuId;
use crate::syncing::{NicknameChange, RoleChange, RoleChangeKind, SyncingInitiator};
use crate::visual_scripting::action_tracker::ActionTrackerItem;
use crate::visual_scripting::element::element_name;
use crate::server::settings::{
    LoggingSettings, SettingChange, SettingValue, changes_view, setting_changes, setting_changes_of, value_view,
};

verus! {

/// How a sync ended for the member: still there, banned, or kicked.
#[derive(Debug, Clone, Copy, PartialEq, Eq, Structural)]
pub enum ProfileSyncKind {
    Default,
    Banned,
    Kicked,
}

impl Default for ProfileSyncKind {
    fn default() -> (r: Self)
        ensures
            r == ProfileSyncKind::Default,
    {
        ProfileSyncKind::Default
    }
}

/// An entry of the action log: who changed what of a server's data.
#[derive(Debug)]
pub struct ActionLog {
    /// What was done, such as `mellow.server.discord_logging.updated`.
    pub kind: String,
    /// The HAKUMI account that did it, where one did.
    pub author: Option<HakuId>,
    pub server_id: u64,
    /// The settings that changed, in order.
    pub data_changes: Vec<SettingChange>,
}

/// An entry of a server's log.
#[derive(Debug)]
pub enum ServerLog {
    /// A change to the server's data.
    ActionLog(ActionLog),
    /// A member's profile was synced and changed, or the member was removed.
    ServerProfileSync {
        kind: ProfileSyncKind,
        initiator: SyncingInitiator,
        user_id: u64,
        role_changes: Vec<RoleChange>,
        nickname_change: Option<NicknameChange>,
        relevant_connections: Vec<HakuId>,
    },
    /// A member finished onboarding.
    UserCompletedOnboarding { user_id: u64 },
    /// What a visual scripting document did.
    VisualScriptingDocumentResult { items: Vec<ActionTrackerItem>, document_name: String },
}

/// The bit that stands for an entry's kind in a server's logging types.
pub open spec fn log_bit(log: ServerLog) -> u8 {
    match log {
        ServerLog::ActionLog(_) => 1,
        ServerLog::ServerProfileSync { .. } => 2,
        ServerLog::UserCompletedOnboarding { .. } => 4,
        ServerLog::VisualScriptingDocumentResult { .. } => 8,
    }
}

impl ServerLog {
    /// The bit that stands for this entry's kind in a server's logging types.
    pub fn discriminant(&self) -> (r: u8)
        ensures
            r == log_bit(*self),
    {
        match self {
            ServerLog::ActionLog(_) => 1,
            ServerLog::ServerProfileSync { .. } => 2,
            ServerLog::UserCompletedOnboarding { .. } => 4,
            ServerLog::VisualScriptingDocumentResult { .. } => 8,
        }
    }

    /// Whether a server whose logging types are `logging_types` is sent this
    /// entry: an onboarding always, any other where its bit is set.
    pub fn is_sent(&self, logging_types: u8) -> (r: bool)
        ensures
            r == (log_bit(*self) == 4 || logging_types & log_bit(*self) == log_bit(*self)),
    {
        let value = self.discriminant();
        value == 4 || (logging_types & value) == value
    }
}

/// The kind of the action-log entry for an update of the logging settings.
pub open spec fn logging_updated_kind() -> Seq<char> {
    "mellow.server.discord_logging.updated"@
}

/// The action-log entry for an update of a server's logging settings from
/// `old` to `new` by `author`: there is one exactly where a setting
/// changed, and it holds the changes.
pub fn settings_update_log(old: &LoggingSettings, new: &LoggingSettings, author: Option<HakuId>, server_id: u64) -> (r: Option<ServerLog>)
    ensures
        match r {
            Some(log) => {
                &&& setting_changes(*old, *new).len() > 0
                &&& log matches ServerLog::ActionLog(entry)
                &&& entry.kind@ == logging_updated_kind()
                &&& entry.author == author
                &&& entry.server_id == server_id
                &&& changes_view(entry.data_changes@) == setting_changes(*old, *new)
            },
            None => setting_changes(*old, *new).len() == 0,
        },
{
    let changes = setting_changes_of(old, new);
    if changes.len() == 0 {
        None
    } else {
        Some(
            ServerLog::ActionLog(
                ActionLog {
                    kind: String::from_str("mellow.server.discord_logging.updated"),
                    author,
                    server_id,
                    data_changes: changes,
                },
            ),
        )
    }
}

/// A setting's value as text: text in code quotes, a number in decimal.
pub open spec fn setting_value_text(v: (Option<Seq<char>>, Option<u64>)) -> Seq<char> {
    match v.0 {
        Some(t) => "`"@ + t + "`"@,
        None => match v.1 {
            Some(n) => text::decimal(n as nat),
            None => Seq::empty(),
        },
    }
}

/// The line that shows a change of a setting.
pub open spec fn data_change_line(c: SettingChange) -> Seq<char> {
    match c {
        SettingChange::Created { name, value } => "* **"@ + name@ + "** set to "@ + setting_value_text(
            value_view(value),
        ),
        SettingChange::Deleted { name, value } => "* **"@ + name@ + "** removed, was "@ + setting_value_text(
            value_view(value),
        ),
        SettingChange::Updated { name, old, new } => "* **"@ + name@ + "** changed from "@ + setting_value_text(
            value_view(old),
        ) + " to "@ + setting_value_text(value_view(new)),
    }
}

/// The lines of the changes.
pub open spec fn data_change_lines(cs: Seq<SettingChange>) -> Seq<Seq<char>> {
    cs.map_values(|c: SettingChange| data_change_line(c))
}

/// What the entry says was done: for an update of the logging settings,
/// in words; otherwise its kind as it is.
pub open spec fn action_text(kind: Seq<char>) -> Seq<char> {
    if kind == logging_updated_kind() {
        "updated the logging settings"@
    } else {
        kind
    }
}

/// A setting's value as text.
fn setting_value_string(v: &SettingValue) -> (r: String)
    ensures
        r@ == setting_value_text(value_view(*v)),
{
    match v {
        SettingValue::Text(t) => {
            let mut r = String::from_str("`");
            r.append(t.as_str());
            r.append("`");
            r
        },
        SettingValue::Number(n) => text::decimal_string(*n),
    }
}

/// The line that shows a change of a setting.
pub fn data_change_text(c: &SettingChange) -> (r: String)
    ensures
        r@ == data_change_line(*c),
{
    let mut r = String::from_str("* **");
    match c {
        SettingChange::Created { name, value } => {
            r.append(name.as_str());
            r.append("** set to ");
            r.append(setting_value_string(value).as_str());
        },
        SettingChange::Deleted { name, value } => {
            r.append(name.as_str());
            r.append("** removed, was ");
            r.append(setting_value_string(value).as_str());
        },
        SettingChange::Updated { name, old, new } => {
            r.append(name.as_str());
            r.append("** changed from ");
            r.append(setting_value_string(old).as_str());
            r.append(" to ");
            r.append(setting_value_string(new).as_str());
        },
    }
    r
}

/// The entry's description: `### {author} {action}`, then a line for each
/// change. `author_text` shows the author.
pub fn action_log_description(entry: &ActionLog, author_text: &str) -> (r: String)
    ensures
        r@ == "### "@ + author_text@ + " "@ + action_text(entry.kind@) + "\n"@ + text::join(
            data_change_lines(entry.data_changes@),
            "\n"@,
        ),
{
    let len = entry.data_changes.len();
    let mut lines: Vec<String> = Vec::new();
    let mut i: usize = 0;
    while i < len
        invariant
            i <= len,
            len == entry.data_changes@.len(),
            lines@.len() == i,
            forall|j: int| 0 <= j < i ==> #[trigger] lines@[j]@ == data_change_line(entry.data_changes@[j]),
        decreases len - i,
    {
        lines.push(data_change_text(&entry.data_changes[i]));
        i = i + 1;
    }
    assert(text::views(lines@) =~= data_change_lines(entry.data_changes@));
    let mut r = String::from_str("### ");
    r.append(author_text);
    r.append(" ");
    if text::str_equal(entry.kind.as_str(), "mellow.server.discord_logging.updated") {
        r.append("updated the logging settings");
    } else {
        r.append(entry.kind.as_str());
    }
    r.append("\n");
    r.append(text::join_strings(&lines, "\n").as_str());
    r
}

/// The sequences that the groups hold.
pub open spec fn groups_view<T>(groups: Seq<Vec<T>>) -> Seq<Seq<T>> {
    groups.map_values(|g: Vec<T>| g@)
}

/// The embeds of a log grouped into messages, in order: each message holds
/// `size` of them, but the last, which holds what is left, at least one.
pub fn message_groups<T>(items: Vec<T>, size: usize) -> (r: Vec<Vec<T>>)
    requires
        size > 0,
    ensures
        groups_view(r@).flatten() == items@,
        forall|i: int| 0 <= i < r@.len() ==> 0 < (#[trigger] r@[i])@.len() <= size,
        forall|i: int| 0 <= i < r@.len() - 1 ==> (#[trigger] r@[i])@.len() == size,
{
    let ghost orig = items@;
    let mut rest = items;
    let mut out: Vec<Vec<T>> = Vec::new();
    proof {
        assert(groups_view(out@) =~= Seq::<Seq<T>>::empty());
        assert(groups_view(out@).flatten() + rest@ =~= orig);
    }
    while rest.len() > 0
        invariant
            size > 0,
            groups_view(out@).flatten() + rest@ == orig,
            forall|i: int| 0 <= i < out@.len() ==> 0 < (#[trigger] out@[i])@.len() <= size,
            rest@.len() > 0 ==> forall|i: int| 0 <= i < out@.len() ==> (#[trigger] out@[i])@.len() == size,
            forall|i: int| 0 <= i < out@.len() - 1 ==> (#[trigger] out@[i])@.len() == size,
        decreases rest@.len(),
    {
        assert(forall|i: int| 0 <= i < out@.len() ==> (#[trigger] out@[i])@.len() == size);
        let mut group: Vec<T> = Vec::new();
        let ghost done = groups_view(out@).flatten();
        proof {
            assert(done + group@ + rest@ =~= orig);
        }
        while group.len() < size && rest.len() > 0
            invariant
                size > 0,
                done + group@ + rest@ == orig,
                group@.len() <= size,
                done == groups_view(out@).flatten(),
            decreases rest@.len(),
        {
            let ghost before_rest = rest@;
            let ghost before_group = group@;
            let x = rest.remove(0);
            group.push(x);
            proof {
                assert(before_rest =~= seq![x] + rest@);
                assert(group@ =~= before_group + seq![x]);
                assert(done + group@ + rest@ =~= done + before_group + before_rest);
            }
        }
        let ghost g = group@;
        let ghost out_before = out@;
        out.push(group);
        proof {
            assert(groups_view(out@) =~= groups_view(out_before).push(g));
            groups_view(out_before).lemma_flatten_push(g);
            assert(groups_view(out@).flatten() + rest@ =~= done + g + rest@);
        }
    }
    proof {
        assert(rest@ =~= Seq::<T>::empty());
        assert(groups_view(out@).flatten() + rest@ =~= groups_view(out@).flatten());
    }
    out
}

/// `<@id>`: the mention of the user `id`.
pub open spec fn mention(id: u64) -> Seq<char> {
    "<@"@ + text::decimal(id as nat) + ">"@
}

/// `<#id>`: the mention of the channel `id`.
pub open spec fn channel_mention(id: u64) -> Seq<char> {
    "<#"@ + text::decimal(id as nat) + ">"@
}

/// The line that shows a role change in a diff: `+ name` or `- name`.
pub open spec fn role_change_line(c: RoleChange) -> Seq<char> {
    match c.kind {
        RoleChangeKind::Added => "+ "@ + c.display_name@,
        RoleChangeKind::Removed => "- "@ + c.display_name@,
    }
}

/// The lines of the role changes `cs`, in order.
pub open spec fn role_change_lines(cs: Seq<RoleChange>) -> Seq<Seq<char>> {
    cs.map_values(|c: RoleChange| role_change_line(c))
}

/// The role changes as a diff block.
pub open spec fn role_changes_block(cs: Seq<RoleChange>) -> Seq<char> {
    "```diff\n"@ + text::join(role_change_lines(cs), "\n"@) + "```"@
}

/// The line that shows a nickname removed, where there was one.
pub open spec fn removed_nick_line(nick: Option<String>) -> Seq<char> {
    match nick {
        Some(x) => "\n- "@ + x@,
        None => Seq::empty(),
    }
}

/// The line that shows a nickname added, where there is one.
pub open spec fn added_nick_line(nick: Option<String>) -> Seq<char> {
    match nick {
        Some(x) => "\n+ "@ + x@,
        None => Seq::empty(),
    }
}

/// A nickname change as a diff block: the old one removed, the new one added.
pub open spec fn nickname_block(old_nick: Option<String>, new_nick: Option<String>) -> Seq<char> {
    "```diff"@ + removed_nick_line(old_nick) + added_nick_line(new_nick) + "```"@
}

/// The title of a sync's log entry; `document_name` names the document
/// that started it, where one did.
pub open spec fn profile_sync_title(
    kind: ProfileSyncKind,
    initiator: SyncingInitiator,
    user_id: u64,
    document_name: Seq<char>,
) -> Seq<char> {
    match kind {
        ProfileSyncKind::Default => match initiator {
            SyncingInitiator::Automatic => mention(user_id) + " was automatically synced"@,
            SyncingInitiator::ForcedBy(other) => mention(other) + " forcefully synced "@ + mention(user_id)
                + "'s profile"@,
            SyncingInitiator::Manual => mention(user_id) + " synced their profile"@,
            SyncingInitiator::VisualScriptingDocument(_) => mention(user_id)
                + " was synced by <:document:1222904218499940395> "@ + document_name,
        },
        ProfileSyncKind::Banned => mention(user_id) + " has been banned"@,
        ProfileSyncKind::Kicked => mention(user_id) + " has been kicked"@,
    }
}

/// The line that shows one thing a document did, in the server `guild_id`.
pub open spec fn tracker_line(item: ActionTrackerItem, guild_id: u64) -> Seq<char> {
    match item {
        ActionTrackerItem::Error(kind, source) => "* Encountered an error at **"@ + element_name(kind)
            + "**\n```diff\n- "@ + source@ + "```\n"@,
        ActionTrackerItem::AssignedMemberRole(user_id, role_id) => "* Assigned <@&"@ + role_id@ + "> to <@"@
            + user_id@ + ">"@,
        ActionTrackerItem::RemovedMemberRole(user_id, role_id) => "* Removed <@&"@ + role_id@ + "> from <@"@
            + user_id@ + ">"@,
        ActionTrackerItem::BannedMember(user_id) => "* Banned <@"@ + user_id@ + "> from the server"@,
        ActionTrackerItem::KickedMember(user_id) => "* Kicked <@"@ + user_id@ + "> from the server"@,
        ActionTrackerItem::CreatedMessage(channel_id, message_id) => "* Sent a message in "@ + channel_mention(
            channel_id,
        ) + ": https://discord.com/channels/"@ + text::decimal(guild_id as nat) + "/"@ + text::decimal(
            channel_id as nat,
        ) + "/"@ + text::decimal(message_id as nat),
        ActionTrackerItem::DeletedMessage(channel_id, user_id) => "* Deleted a message in <#"@ + channel_id@
            + "> by <@"@ + user_id@ + ">"@,
        ActionTrackerItem::CreatedThread(channel_id, thread_id) => "* Started a new thread in "@
            + channel_mention(channel_id) + ": "@ + channel_mention(thread_id),
    }
}

/// The lines of the things a document did, in order.
pub open spec fn tracker_lines(items: Seq<ActionTrackerItem>, guild_id: u64) -> Seq<Seq<char>> {
    items.map_values(|item: ActionTrackerItem| tracker_line(item, guild_id))
}

/// The string holding the decimal notation of `n`.
fn decimal_text(n: u64) -> (r: String)
    ensures
        r@ == text::decimal(n as nat),
{
    text::decimal_string(n)
}

/// `<@id>`: the mention of the user `id`.
pub fn mention_text(id: u64) -> (r: String)
    ensures
        r@ == mention(id),
{
    let mut r = String::from_str("<@");
    r.append(decimal_text(id).as_str());
    r.append(">");
    r
}

/// `<#id>`: the mention of the channel `id`.
pub fn channel_mention_text(id: u64) -> (r: String)
    ensures
        r@ == channel_mention(id),
{
    let mut r = String::from_str("<#");
    r.append(decimal_text(id).as_str());
    r.append(">");
    r
}

/// The line that shows a role change in a diff.
pub fn role_change_text(c: &RoleChange) -> (r: String)
    ensures
        r@ == role_change_line(*c),
{
    let mut r = match c.kind {
        RoleChangeKind::Added => String::from_str("+ "),
        RoleChangeKind::Removed => String::from_str("- "),
    };
    r.append(c.display_name.as_str());
    r
}

/// The lines of the role changes, joined by line breaks.
pub fn role_change_list(cs: &Vec<RoleChange>) -> (r: String)
    ensures
        r@ == text::join(role_change_lines(cs@), "\n"@),
{
    let len = cs.len();
    let mut lines: Vec<String> = Vec::new();
    let mut i: usize = 0;
    while i < len
        invariant
            i <= len,
            len == cs@.len(),
            lines@.len() == i,
            forall|j: int| 0 <= j < i ==> #[trigger] lines@[j]@ == role_change_line(cs@[j]),
        decreases len - i,
    {
        let line = role_change_text(&cs[i]);
        lines.push(line);
        i = i + 1;
    }
    assert(text::views(lines@) =~= role_change_lines(cs@));
    text::join_strings(&lines, "\n")
}

/// The role changes as a diff block.
pub fn role_changes_text(cs: &Vec<RoleChange>) -> (r: String)
    ensures
        r@ == role_changes_block(cs@),
{
    let mut r = String::from_str("```diff\n");
    r.append(role_change_list(cs).as_str());
    r.append("```");
    r
}

/// A nickname change as a diff block.
pub fn nickname_text(change: &NicknameChange) -> (r: String)
    ensures
        r@ == nickname_block(change.0, change.1),
{
    let mut r = String::from_str("```diff");
    let ghost start = r@;
    match &change.0 {
        Some(x) => {
            r.append("\n- ");
            r.append(x.as_str());
        },
        None => {},
    }
    let ghost middle = r@;
    match &change.1 {
        Some(x) => {
            r.append("\n+ ");
            r.append(x.as_str());
        },
        None => {},
    }
    r.append("```");
    proof {
        assert(middle =~= start + removed_nick_line(change.0));
        assert(r@ =~= start + removed_nick_line(change.0) + added_nick_line(change.1) + "```"@);
    }
    r
}

/// The title of a sync's log entry; `document_name` is read only where a
/// document started the sync.
pub fn profile_sync_title_text(
    kind: ProfileSyncKind,
    initiator: SyncingInitiator,
    user_id: u64,
    document_name: &str,
) -> (r: String)
    ensures
        r@ == profile_sync_title(kind, initiator, user_id, document_name@),
{
    let mut r = match kind {
        ProfileSyncKind::Default => match initiator {
            SyncingInitiator::ForcedBy(other) => mention_text(other),
            _ => mention_text(user_id),
        },
        _ => mention_text(user_id),
    };
    match kind {
        ProfileSyncKind::Default => match initiator {
            SyncingInitiator::Automatic => r.append(" was automatically synced"),
            SyncingInitiator::ForcedBy(_) => {
                r.append(" forcefully synced ");
                r.append(mention_text(user_id).as_str());
                r.append("'s profile");
            },
            SyncingInitiator::Manual => r.append(" synced their profile"),
            SyncingInitiator::VisualScriptingDocument(_) => {
                r.append(" was synced by <:document:1222904218499940395> ");
                r.append(document_name);
            },
        },
        ProfileSyncKind::Banned => r.append(" has been banned"),
        ProfileSyncKind::Kicked => r.append(" has been kicked"),
    }
    r
}

/// The line that shows one thing a document did, in the server `guild_id`.
pub fn tracker_line_text(item: &ActionTrackerItem, guild_id: u64) -> (r: String)
    ensures
        r@ == tracker_line(*item, guild_id),
{
    match item {
        ActionTrackerItem::Error(kind, source) => {
            let mut r = String::from_str("* Encountered an error at **");
            r.append(kind.display_name());
            r.append("**\n```diff\n- ");
            r.append(source.as_str());
            r.append("```\n");
            r
        },
        ActionTrackerItem::AssignedMemberRole(user_id, role_id) => {
            let mut r = String::from_str("* Assigned <@&");
            r.append(role_id.as_str());
            r.append("> to <@");
            r.append(user_id.as_str());
            r.append(">");
            r
        },
        ActionTrackerItem::RemovedMemberRole(user_id, role_id) => {
            let mut r = String::from_str("* Removed <@&");
            r.append(role_id.as_str());
            r.append("> from <@");
            r.append(user_id.as_str());
            r.append(">");
            r
        },
        ActionTrackerItem::BannedMember(user_id) => {
            let mut r = String::from_str("* Banned <@");
            r.append(user_id.as_str());
            r.append("> from the server");
            r
        },
        ActionTrackerItem::KickedMember(user_id) => {
            let mut r = String::from_str("* Kicked <@");
            r.append(user_id.as_str());
            r.append("> from the server");
            r
        },
        ActionTrackerItem::CreatedMessage(channel_id, message_id) => {
            let mut r = String::from_str("* Sent a message in ");
            r.append(channel_mention_text(*channel_id).as_str());
            r.append(": https://discord.com/channels/");
            r.append(decimal_text(guild_id).as_str());
            r.append("/");
            r.append(decimal_text(*channel_id).as_str());
            r.append("/");
            r.append(decimal_text(*message_id).as_str());
            r
        },
        ActionTrackerItem::DeletedMessage(channel_id, user_id) => {
            let mut r = String::from_str("* Deleted a message in <#");
            r.append(channel_id.as_str());
            r.append("> by <@");
            r.append(user_id.as_str());
            r.append(">");
            r
        },
        ActionTrackerItem::CreatedThread(channel_id, thread_id) => {
            let mut r = String::from_str("* Started a new thread in ");
            r.append(channel_mention_text(*channel_id).as_str());
            r.append(": ");
            r.append(channel_mention_text(*thread_id).as_str());
            r
        },
    }
}

/// What a document did, one line for each thing, in the server `guild_id`.
pub fn tracker_description(items: &Vec<ActionTrackerItem>, guild_id: u64) -> (r: String)
    ensures
        r@ == text::join(tracker_lines(items@, guild_id), "\n"@),
{
    let len = items.len();
    let mut lines: Vec<String> = Vec::new();
    let mut i: usize = 0;
    while i < len
        invariant
            i <= len,
            len == items@.len(),
            lines@.len() == i,
            forall|j: int| 0 <= j < i ==> #[trigger] lines@[j]@ == tracker_line(items@[j], guild_id),
        decreases len - i,
    {
        let line = tracker_line_text(&items[i], guild_id);
        lines.push(line);
        i = i + 1;
    }
    assert(text::views(lines@) =~= tracker_lines(items@, guild_id));
    text::join_strings(&lines, "\n")
}

/// The title of a document's result: `Result for <document> name`.
pub fn document_result_title(document_name: &str) -> (r: String)
    ensures
        r@ == "Result for <:document:1222904218499940395> "@ + document_name@,
{
    let mut r = String::from_str("Result for <:document:1222904218499940395> ");
    r.append(document_name);
    r
}

/// The title of an onboarding's log entry: `name completed onboarding`.
pub fn onboarding_title(display_name: &str) -> (r: String)
    ensures
        r@ == display_name@ + " completed onboarding"@,
{
    let mut r = String::from_str(display_name);
    r.append(" completed onboarding");
    r
}

} // verus!
