//! What running one element of a document asks of Discord, decided from the
//! element and the document's variables, and what the tracker records once
//! it is done.
use vstd::prelude::*;
use crate::text;
use crate::visual_scripting::action_tracker::{ActionTracker, ActionTrackerItem, appended};
use crate::visual_scripting::element::{ElementKind, text_spec};
use crate::visual_scripting::variable::{Variable, VariableKind, VariableReference, dict_get};

verus! {

/// What an element asks to be done.
#[derive(Debug)]
pub enum ElementAction {
    /// Nothing: the element has nothing to act on.
    Skip,
    /// Ban a member; the document stops after it.
    Ban { guild_id: u64, user_id: u64 },
    /// Kick a member; the document stops after it.
    Kick { guild_id: u64, user_id: u64 },
    /// Give a member a role; `role` is the role id as the element writes it.
    AssignRole { guild_id: u64, user_id: u64, role_id: u64, role: String },
    /// Take a role from a member; `role` is the role id as the element writes it.
    RemoveRole { guild_id: u64, user_id: u64, role_id: u64, role: String },
    SyncMember { guild_id: u64, user_id: u64 },
    CreateMessage { channel_id: u64, content: String },
    Reply { channel_id: u64, message_id: u64, content: String },
    AddCustomReaction { channel_id: u64, message_id: u64, name: String, emoji_id: u64 },
    AddUnicodeReaction { channel_id: u64, message_id: u64, name: String },
    DeleteMessage { channel_id: u64, message_id: u64, author_id: String },
    GetLinkedPatreonCampaign { guild_id: u64 },
    InteractionReply { token: String, content: String },
    StartThread { channel_id: u64, message_id: u64, name: String },
    /// A number written in the element is not one: the element fails.
    InvalidNumber,
}

/// The value under `key` of a dictionary `v`.
pub open spec fn field(v: Variable, key: Seq<char>) -> Option<Variable> {
    match v.kind {
        VariableKind::Dictionary(m) => dict_get(m@, key),
        _ => None,
    }
}

/// The number that `s` writes, where it is one that fits in a `u64`.
pub open spec fn number_of(s: Seq<char>) -> Option<nat> {
    text::parse_bounded(s, u64::MAX as nat)
}

/// The snowflake id that `v` writes, where it writes one.
pub open spec fn id_value(v: Option<Variable>) -> Option<u64> {
    match v {
        Some(x) => match x.kind {
            VariableKind::String(s) => match number_of(s@) {
                Some(n) => if n != 0 { Some(n as u64) } else { None },
                None => None,
            },
            _ => None,
        },
        None => None,
    }
}

/// `v` is a dictionary whose field `key` writes a snowflake id.
pub open spec fn has_id(v: Variable, key: Seq<char>) -> bool {
    id_value(field(v, key)).is_some()
}

/// The snowflake id in the field `key` of `v`.
pub open spec fn id_of(v: Variable, key: Seq<char>) -> u64 {
    id_value(field(v, key)).unwrap()
}

/// A member variable: its user id and server id written as snowflakes.
pub open spec fn member_ok(m: Variable) -> bool {
    has_id(m, "id"@) && has_id(m, "guild_id"@)
}

/// A message variable: its channel id and its id written as snowflakes.
pub open spec fn message_ok(m: Variable) -> bool {
    has_id(m, "channel_id"@) && has_id(m, "id"@)
}

/// The string under `key` of a dictionary `v`, where there is one.
pub open spec fn string_field(v: Variable, key: Seq<char>) -> Option<Seq<char>> {
    match field(v, key) {
        Some(x) => match x.kind {
            VariableKind::String(s) => Some(s@),
            _ => None,
        },
        None => None,
    }
}

/// The id of the author of a message variable, as text.
pub open spec fn author_id(m: Variable) -> Option<Seq<char>> {
    match field(m, "author"@) {
        Some(a) => string_field(a, "id"@),
        None => None,
    }
}

/// What `r` reaches in `vars`.
pub open spec fn reached(r: VariableReference, vars: Variable) -> Option<Variable> {
    r.target(vars).unwrap()
}

/// Where the first `:` of `s` stands, if it has one.
pub open spec fn colon(s: Seq<char>) -> Option<int> {
    text::first_char_from(s, ':', 0)
}

/// The emoji id of a reaction written `name:id`, the first colon of `s`
/// standing at `i`: what follows it up to the next colon, if any.
pub open spec fn emoji_id_text(s: Seq<char>, i: int) -> Seq<char> {
    let rest = s.skip(i + 1);
    match colon(rest) {
        Some(j) => rest.take(j),
        None => rest,
    }
}

/// The inputs on which running an element panics, and which are left out:
/// a reference whose path meets a list with a key that is no index, a
/// variable that lacks an id it must hold, or an id that is zero.
pub open spec fn element_defined(kind: ElementKind, vars: Variable) -> bool {
    match kind {
        ElementKind::BanMember(r) | ElementKind::KickMember(r) => r.target(vars).is_some() && match reached(r, vars) {
            Some(m) => member_ok(m),
            None => true,
        },
        ElementKind::AssignRoleToMember(d) | ElementKind::RemoveRoleFromMember(d) => d.reference.target(vars).is_some()
            && match reached(d.reference, vars) {
            Some(m) => member_ok(m) && number_of(d.value@) != Some(0nat),
            None => true,
        },
        ElementKind::SyncMember => match field(vars, "member"@) {
            Some(m) => member_ok(m),
            None => false,
        },
        ElementKind::CreateMessage(d) => d.channel_id.target(vars).is_some() && match reached(d.channel_id, vars) {
            Some(c) => id_value(Some(c)).is_some(),
            None => true,
        },
        ElementKind::Reply(d) => d.reference.target(vars).is_some() && match reached(d.reference, vars) {
            Some(m) => message_ok(m),
            None => true,
        },
        ElementKind::AddReaction(d) => d.reference.target(vars).is_some() && match reached(d.reference, vars) {
            Some(m) => message_ok(m) && match colon(d.value@) {
                Some(i) => number_of(emoji_id_text(d.value@, i)) != Some(0nat),
                None => true,
            },
            None => true,
        },
        ElementKind::DeleteMessage(r) => r.target(vars).is_some() && match reached(r, vars) {
            Some(m) => message_ok(m) && author_id(m).is_some(),
            None => true,
        },
        ElementKind::GetLinkedPatreonCampaign => has_id(vars, "guild_id"@),
        ElementKind::InteractionReply(_) => string_field(vars, "interaction_token"@).is_some(),
        ElementKind::StartThreadFromMessage { name, message } => message.target(vars).is_some() && match reached(
            message,
            vars,
        ) {
            Some(m) => message_ok(m),
            None => true,
        },
        _ => true,
    }
}

/// What running the element `kind` against `vars` asks for.
pub open spec fn planned(kind: ElementKind, vars: Variable, r: ElementAction) -> bool {
    match kind {
        ElementKind::BanMember(x) => match reached(x, vars) {
            Some(m) => r == ElementAction::Ban { guild_id: id_of(m, "guild_id"@), user_id: id_of(m, "id"@) },
            None => r is Skip,
        },
        ElementKind::KickMember(x) => match reached(x, vars) {
            Some(m) => r == ElementAction::Kick { guild_id: id_of(m, "guild_id"@), user_id: id_of(m, "id"@) },
            None => r is Skip,
        },
        ElementKind::AssignRoleToMember(d) => match reached(d.reference, vars) {
            Some(m) => match number_of(d.value@) {
                Some(n) => r matches ElementAction::AssignRole { guild_id, user_id, role_id, role } && guild_id
                    == id_of(m, "guild_id"@) && user_id == id_of(m, "id"@) && role_id == n && role@ == d.value@,
                None => r is InvalidNumber,
            },
            None => r is Skip,
        },
        ElementKind::RemoveRoleFromMember(d) => match reached(d.reference, vars) {
            Some(m) => match number_of(d.value@) {
                Some(n) => r matches ElementAction::RemoveRole { guild_id, user_id, role_id, role } && guild_id
                    == id_of(m, "guild_id"@) && user_id == id_of(m, "id"@) && role_id == n && role@ == d.value@,
                None => r is InvalidNumber,
            },
            None => r is Skip,
        },
        ElementKind::SyncMember => match field(vars, "member"@) {
            Some(m) => r == ElementAction::SyncMember { guild_id: id_of(m, "guild_id"@), user_id: id_of(m, "id"@) },
            None => r is Skip,
        },
        ElementKind::CreateMessage(d) => match reached(d.channel_id, vars) {
            Some(c) => r matches ElementAction::CreateMessage { channel_id, content } && channel_id == id_value(
                Some(c),
            ).unwrap() && content@ == text_spec(d.content, vars),
            None => r is Skip,
        },
        ElementKind::Reply(d) => match reached(d.reference, vars) {
            Some(m) => r matches ElementAction::Reply { channel_id, message_id, content } && channel_id == id_of(
                m,
                "channel_id"@,
            ) && message_id == id_of(m, "id"@) && content@ == d.value@,
            None => r is Skip,
        },
        ElementKind::AddReaction(d) => match reached(d.reference, vars) {
            Some(m) => match colon(d.value@) {
                Some(i) => match number_of(emoji_id_text(d.value@, i)) {
                    Some(n) => r matches ElementAction::AddCustomReaction { channel_id, message_id, name, emoji_id }
                        && channel_id == id_of(m, "channel_id"@) && message_id == id_of(m, "id"@) && name@
                        == d.value@.take(i) && emoji_id == n,
                    None => r is InvalidNumber,
                },
                None => r matches ElementAction::AddUnicodeReaction { channel_id, message_id, name } && channel_id
                    == id_of(m, "channel_id"@) && message_id == id_of(m, "id"@) && name@ == d.value@,
            },
            None => r is Skip,
        },
        ElementKind::DeleteMessage(x) => match reached(x, vars) {
            Some(m) => r matches ElementAction::DeleteMessage { channel_id, message_id, author_id: a } && channel_id
                == id_of(m, "channel_id"@) && message_id == id_of(m, "id"@) && Some(a@) == author_id(m),
            None => r is Skip,
        },
        ElementKind::GetLinkedPatreonCampaign => r == ElementAction::GetLinkedPatreonCampaign {
            guild_id: id_of(vars, "guild_id"@),
        },
        ElementKind::InteractionReply(t) => r matches ElementAction::InteractionReply { token, content } && Some(token@)
            == string_field(vars, "interaction_token"@) && content@ == text_spec(t, vars),
        ElementKind::StartThreadFromMessage { name, message } => match reached(message, vars) {
            Some(m) => r matches ElementAction::StartThread { channel_id, message_id, name: n } && channel_id
                == id_of(m, "channel_id"@) && message_id == id_of(m, "id"@) && n@ == text_spec(name, vars),
            None => r is Skip,
        },
        _ => r is Skip,
    }
}

/// The snowflake id in the field `key` of `v`.
fn read_id(v: &Variable, key: &str) -> (r: u64)
    requires
        has_id(*v, key@),
    ensures
        r == id_of(*v, key@),
{
    v.get(key).cast_id()
}

/// What running the element `kind` asks for, given the document's variables.
pub fn plan_element(kind: &ElementKind, vars: &Variable) -> (r: ElementAction)
    requires
        element_defined(*kind, *vars),
    ensures
        planned(*kind, *vars, r),
{
    match kind {
        ElementKind::BanMember(x) => match x.resolve_ref(vars) {
            Some(m) => ElementAction::Ban { guild_id: read_id(m, "guild_id"), user_id: read_id(m, "id") },
            None => ElementAction::Skip,
        },
        ElementKind::KickMember(x) => match x.resolve_ref(vars) {
            Some(m) => ElementAction::Kick { guild_id: read_id(m, "guild_id"), user_id: read_id(m, "id") },
            None => ElementAction::Skip,
        },
        ElementKind::AssignRoleToMember(d) => match d.reference.resolve_ref(vars) {
            Some(m) => {
                let user_id = read_id(m, "id");
                let guild_id = read_id(m, "guild_id");
                match text::parse_u64(d.value.as_str()) {
                    Some(role_id) => ElementAction::AssignRole { guild_id, user_id, role_id, role: d.value.clone() },
                    None => ElementAction::InvalidNumber,
                }
            },
            None => ElementAction::Skip,
        },
        ElementKind::RemoveRoleFromMember(d) => match d.reference.resolve_ref(vars) {
            Some(m) => {
                let user_id = read_id(m, "id");
                let guild_id = read_id(m, "guild_id");
                match text::parse_u64(d.value.as_str()) {
                    Some(role_id) => ElementAction::RemoveRole { guild_id, user_id, role_id, role: d.value.clone() },
                    None => ElementAction::InvalidNumber,
                }
            },
            None => ElementAction::Skip,
        },
        ElementKind::SyncMember => {
            let m = vars.get("member");
            ElementAction::SyncMember { guild_id: read_id(m, "guild_id"), user_id: read_id(m, "id") }
        },
        ElementKind::CreateMessage(d) => match d.channel_id.resolve_ref(vars) {
            Some(c) => {
                let channel_id = c.cast_id();
                ElementAction::CreateMessage { channel_id, content: d.content.resolve(vars) }
            },
            None => ElementAction::Skip,
        },
        ElementKind::Reply(d) => match d.reference.resolve_ref(vars) {
            Some(m) => ElementAction::Reply {
                channel_id: read_id(m, "channel_id"),
                message_id: read_id(m, "id"),
                content: d.value.clone(),
            },
            None => ElementAction::Skip,
        },
        ElementKind::AddReaction(d) => match d.reference.resolve_ref(vars) {
            Some(m) => {
                let value = d.value.as_str();
                match text::find_char(value, ':') {
                    Some(i) => {
                        let len = value.unicode_len();
                        proof { text::lemma_first_char_from(value@, ':', 0); }
                        let rest = text::substring(value, i + 1, len);
                        assert(rest@ =~= value@.skip(i + 1));
                        let rest_len = rest.as_str().unicode_len();
                        let end = match text::find_char(rest.as_str(), ':') {
                            Some(j) => j,
                            None => rest_len,
                        };
                        proof { text::lemma_first_char_from(rest@, ':', 0); }
                        let piece = text::substring(rest.as_str(), 0, end);
                        assert(piece@ =~= emoji_id_text(value@, i as int));
                        match text::parse_u64(piece.as_str()) {
                            Some(emoji_id) => ElementAction::AddCustomReaction {
                                channel_id: read_id(m, "channel_id"),
                                message_id: read_id(m, "id"),
                                name: text::substring(value, 0, i),
                                emoji_id,
                            },
                            None => ElementAction::InvalidNumber,
                        }
                    },
                    None => ElementAction::AddUnicodeReaction {
                        channel_id: read_id(m, "channel_id"),
                        message_id: read_id(m, "id"),
                        name: d.value.clone(),
                    },
                }
            },
            None => ElementAction::Skip,
        },
        ElementKind::DeleteMessage(x) => match x.resolve_ref(vars) {
            Some(m) => {
                let channel_id = read_id(m, "channel_id");
                let message_id = read_id(m, "id");
                let author = m.get("author").get("id").cast_str();
                ElementAction::DeleteMessage { channel_id, message_id, author_id: String::from_str(author) }
            },
            None => ElementAction::Skip,
        },
        ElementKind::GetLinkedPatreonCampaign => ElementAction::GetLinkedPatreonCampaign {
            guild_id: read_id(vars, "guild_id"),
        },
        ElementKind::InteractionReply(t) => {
            let token = vars.get("interaction_token").cast_str();
            ElementAction::InteractionReply { token: String::from_str(token), content: t.resolve(vars) }
        },
        ElementKind::StartThreadFromMessage { name, message } => match message.resolve_ref(vars) {
            Some(m) => ElementAction::StartThread {
                channel_id: read_id(m, "channel_id"),
                message_id: read_id(m, "id"),
                name: name.resolve(vars),
            },
            None => ElementAction::Skip,
        },
        _ => ElementAction::Skip,
    }
}

/// Whether the field `key` of `v` writes a snowflake id.
fn id_in(v: &Variable, key: &str) -> (r: bool)
    ensures
        r == has_id(*v, key@),
{
    match v.lookup(key) {
        Some(x) => match &x.kind {
            VariableKind::String(s) => match text::parse_u64(s.as_str()) {
                Some(n) => n != 0,
                None => false,
            },
            _ => false,
        },
        None => false,
    }
}

/// Whether the field `key` of `v` is a string.
fn string_in(v: &Variable, key: &str) -> (r: bool)
    ensures
        r == string_field(*v, key@).is_some(),
{
    match v.lookup(key) {
        Some(x) => match &x.kind {
            VariableKind::String(_) => true,
            _ => false,
        },
        None => false,
    }
}

/// Whether `m` is a member variable with both its ids.
fn member_in(m: &Variable) -> (r: bool)
    ensures
        r == member_ok(*m),
{
    id_in(m, "id") && id_in(m, "guild_id")
}

/// Whether `m` is a message variable with both its ids.
fn message_in(m: &Variable) -> (r: bool)
    ensures
        r == message_ok(*m),
{
    id_in(m, "channel_id") && id_in(m, "id")
}

/// Whether a reaction `value` names no custom emoji of id zero.
fn emoji_id_ok(value: &str) -> (r: bool)
    ensures
        r == match colon(value@) {
            Some(i) => number_of(emoji_id_text(value@, i)) != Some(0nat),
            None => true,
        },
{
    match text::find_char(value, ':') {
        Some(i) => {
            let len = value.unicode_len();
            proof { text::lemma_first_char_from(value@, ':', 0); }
            let rest = text::substring(value, i + 1, len);
            assert(rest@ =~= value@.skip(i + 1));
            let rest_len = rest.as_str().unicode_len();
            let end = match text::find_char(rest.as_str(), ':') {
                Some(j) => j,
                None => rest_len,
            };
            proof { text::lemma_first_char_from(rest@, ':', 0); }
            let piece = text::substring(rest.as_str(), 0, end);
            assert(piece@ =~= emoji_id_text(value@, i as int));
            match text::parse_u64(piece.as_str()) {
                Some(n) => n != 0,
                None => true,
            }
        },
        None => true,
    }
}

/// Whether running the element `kind` against `vars` can go ahead, where
/// it would otherwise panic.
pub fn element_is_defined(kind: &ElementKind, vars: &Variable) -> (r: bool)
    ensures
        r == element_defined(*kind, *vars),
{
    match kind {
        ElementKind::BanMember(x) | ElementKind::KickMember(x) => match x.try_resolve_ref(vars) {
            Some(Some(m)) => member_in(m),
            Some(None) => true,
            None => false,
        },
        ElementKind::AssignRoleToMember(d) | ElementKind::RemoveRoleFromMember(d) => match d.reference.try_resolve_ref(
            vars,
        ) {
            Some(Some(m)) => member_in(m) && match text::parse_u64(d.value.as_str()) {
                Some(n) => n != 0,
                None => true,
            },
            Some(None) => true,
            None => false,
        },
        ElementKind::SyncMember => match vars.lookup("member") {
            Some(m) => member_in(m),
            None => false,
        },
        ElementKind::CreateMessage(d) => match d.channel_id.try_resolve_ref(vars) {
            Some(Some(c)) => match &c.kind {
                VariableKind::String(s) => match text::parse_u64(s.as_str()) {
                    Some(n) => n != 0,
                    None => false,
                },
                _ => false,
            },
            Some(None) => true,
            None => false,
        },
        ElementKind::Reply(d) => match d.reference.try_resolve_ref(vars) {
            Some(Some(m)) => message_in(m),
            Some(None) => true,
            None => false,
        },
        ElementKind::AddReaction(d) => match d.reference.try_resolve_ref(vars) {
            Some(Some(m)) => message_in(m) && emoji_id_ok(d.value.as_str()),
            Some(None) => true,
            None => false,
        },
        ElementKind::DeleteMessage(x) => match x.try_resolve_ref(vars) {
            Some(Some(m)) => message_in(m) && match m.lookup("author") {
                Some(a) => string_in(a, "id"),
                None => false,
            },
            Some(None) => true,
            None => false,
        },
        ElementKind::GetLinkedPatreonCampaign => id_in(vars, "guild_id"),
        ElementKind::InteractionReply(_) => string_in(vars, "interaction_token"),
        ElementKind::StartThreadFromMessage { message, .. } => match message.try_resolve_ref(vars) {
            Some(Some(m)) => message_in(m),
            Some(None) => true,
            None => false,
        },
        _ => true,
    }
}

/// What running the element `kind` asks for, given the document's
/// variables; `None` where running it would panic.
pub fn try_plan_element(kind: &ElementKind, vars: &Variable) -> (r: Option<ElementAction>)
    ensures
        match r {
            Some(a) => element_defined(*kind, *vars) && planned(*kind, *vars, a),
            None => !element_defined(*kind, *vars),
        },
{
    if element_is_defined(kind, vars) {
        Some(plan_element(kind, vars))
    } else {
        None
    }
}

impl ElementAction {
    /// Whether the document stops once this action is done: after a ban or a kick.
    pub fn stops(&self) -> (r: bool)
        ensures
            r == (self is Ban || self is Kick),
    {
        match self {
            ElementAction::Ban { .. } | ElementAction::Kick { .. } => true,
            _ => false,
        }
    }
}

/// What the tracker records once `action` is done, `created_id` being the
/// id of the message or thread that Discord created for it, where it
/// created one.
pub open spec fn recorded(old: ActionTracker, new: ActionTracker, action: ElementAction, created_id: u64) -> bool {
    &&& new.name() == old.name()
    &&& match action {
        ElementAction::Ban { user_id, .. } => {
            &&& appended(old.entries(), new.entries())
            &&& new.has_replied() == old.has_replied()
            &&& new.entries().last() matches ActionTrackerItem::BannedMember(u)
            &&& u@ == text::decimal(user_id as nat)
        },
        ElementAction::Kick { user_id, .. } => {
            &&& appended(old.entries(), new.entries())
            &&& new.has_replied() == old.has_replied()
            &&& new.entries().last() matches ActionTrackerItem::KickedMember(u)
            &&& u@ == text::decimal(user_id as nat)
        },
        ElementAction::AssignRole { user_id, role, .. } => {
            &&& appended(old.entries(), new.entries())
            &&& new.has_replied() == old.has_replied()
            &&& new.entries().last() matches ActionTrackerItem::AssignedMemberRole(u, x)
            &&& u@ == text::decimal(user_id as nat)
            &&& x@ == role@
        },
        ElementAction::RemoveRole { user_id, role, .. } => {
            &&& appended(old.entries(), new.entries())
            &&& new.has_replied() == old.has_replied()
            &&& new.entries().last() matches ActionTrackerItem::RemovedMemberRole(u, x)
            &&& u@ == text::decimal(user_id as nat)
            &&& x@ == role@
        },
        ElementAction::CreateMessage { channel_id, .. } => {
            &&& new.entries() == old.entries().push(ActionTrackerItem::CreatedMessage(channel_id, created_id))
            &&& new.has_replied() == old.has_replied()
        },
        ElementAction::DeleteMessage { channel_id, author_id, .. } => {
            &&& appended(old.entries(), new.entries())
            &&& new.has_replied() == old.has_replied()
            &&& new.entries().last() matches ActionTrackerItem::DeletedMessage(c, u)
            &&& c@ == text::decimal(channel_id as nat)
            &&& u@ == author_id@
        },
        ElementAction::InteractionReply { .. } => new.entries() == old.entries() && new.has_replied(),
        ElementAction::StartThread { channel_id, .. } => {
            &&& new.entries() == old.entries().push(ActionTrackerItem::CreatedThread(channel_id, created_id))
            &&& new.has_replied() == old.has_replied()
        },
        _ => new.entries() == old.entries() && new.has_replied() == old.has_replied(),
    }
}

/// Law: recording a ban adds one entry, the banned member, whose log line
/// reads `* Banned <@id> from the server`; recording a kick adds one entry,
/// the kicked member, reading `* Kicked <@id> from the server`. Neither
/// records the other.
pub proof fn lemma_removals_recorded(
    old: ActionTracker,
    new: ActionTracker,
    action: ElementAction,
    created_id: u64,
    guild_id: u64,
)
    requires
        recorded(old, new, action, created_id),
    ensures
        action matches ElementAction::Ban { user_id, .. } ==> {
            &&& new.entries().len() == old.entries().len() + 1
            &&& new.entries().drop_last() == old.entries()
            &&& new.entries().last() is BannedMember
            &&& crate::server::logging::tracker_line(new.entries().last(), guild_id) == "* Banned <@"@ + text::decimal(
                user_id as nat,
            ) + "> from the server"@
        },
        action matches ElementAction::Kick { user_id, .. } ==> {
            &&& new.entries().len() == old.entries().len() + 1
            &&& new.entries().drop_last() == old.entries()
            &&& new.entries().last() is KickedMember
            &&& crate::server::logging::tracker_line(new.entries().last(), guild_id) == "* Kicked <@"@ + text::decimal(
                user_id as nat,
            ) + "> from the server"@
        },
{
}

impl ActionTracker {
    /// Records that `action` was done; `created_id` is the id of the message
    /// or thread that it created, and is read only for those.
    pub fn record(&mut self, action: &ElementAction, created_id: u64)
        ensures
            recorded(*old(self), *final(self), *action, created_id),
    {
        match action {
            ElementAction::Ban { user_id, .. } => self.banned_member(*user_id),
            ElementAction::Kick { user_id, .. } => self.kicked_member(*user_id),
            ElementAction::AssignRole { user_id, role, .. } => self.assigned_member_role(*user_id, role.as_str()),
            ElementAction::RemoveRole { user_id, role, .. } => self.removed_member_role(*user_id, role.as_str()),
            ElementAction::CreateMessage { channel_id, .. } => self.created_message(*channel_id, created_id),
            ElementAction::DeleteMessage { channel_id, author_id, .. } => self.deleted_message(
                *channel_id,
                author_id.as_str(),
            ),
            ElementAction::InteractionReply { .. } => self.mark_replied(),
            ElementAction::StartThread { channel_id, .. } => self.created_thread(*channel_id, created_id),
            _ => {},
        }
    }
}

impl ActionTracker {
    /// Takes the outcome of doing `action` for an element of the kind
    /// `element_kind`: where it was done, records it, `created_id` being the
    /// id of what it created; where it failed, records the error. Tells
    /// whether the document goes on: not after an error, a ban or a kick.
    pub fn after_element(&mut self, element_kind: ElementKind, action: &ElementAction, outcome: Result<u64, String>) -> (go_on: bool)
        ensures
            match outcome {
                Ok(created_id) => {
                    &&& recorded(*old(self), *final(self), *action, created_id)
                    &&& go_on == !(action is Ban || action is Kick)
                },
                Err(message) => {
                    &&& final(self).entries() == old(self).entries().push(ActionTrackerItem::Error(element_kind, message))
                    &&& final(self).name() == old(self).name()
                    &&& final(self).has_replied() == old(self).has_replied()
                    &&& !go_on
                },
            },
    {
        match outcome {
            Ok(created_id) => {
                self.record(action, created_id);
                !action.stops()
            },
            Err(message) => {
                self.error(element_kind, message);
                false
            },
        }
    }
}

} // verus!
