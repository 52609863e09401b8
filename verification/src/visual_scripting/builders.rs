//! The variables that documents read for members, users and messages.
use vstd::prelude::*;
use crate::text;
use crate::model::discord::avatar_link;
use crate::visual_scripting::variable::{Variable, VariableInterpretAs, VariableKind};
use crate::syncing::{RoleChange, RoleChangeKind};

verus! {

/// `v` is the string `s`, read plainly.
pub open spec fn text_variable(v: Variable, s: Seq<char>) -> bool {
    &&& v.kind is String
    &&& v.kind->String_0@ == s
    &&& v.interpret_as == VariableInterpretAs::NonSpecific
}

/// `v` is the list of the ids `ids`, each as decimal text.
pub open spec fn ids_variable(v: Variable, ids: Seq<u64>) -> bool {
    &&& v.kind is List
    &&& v.interpret_as == VariableInterpretAs::NonSpecific
    &&& v.kind->List_0@.len() == ids.len()
    &&& forall|i: int| 0 <= i < ids.len() ==> text_variable(#[trigger] v.kind->List_0@[i], text::decimal(ids[i] as nat))
}

/// The avatar link of the user `user_id` with the avatar `hash`, or the
/// empty string where there is none.
pub open spec fn avatar_text(user_id: u64, hash: Option<Seq<char>>) -> Seq<char> {
    match hash {
        Some(h) => avatar_link(user_id, h),
        None => Seq::empty(),
    }
}

/// The name shown for a user: the global name where there is one, else the username.
pub open spec fn shown_name(global_name: Option<Seq<char>>, username: Seq<char>) -> Seq<char> {
    match global_name {
        Some(g) => g,
        None => username,
    }
}

/// The entry `i` of the dictionary `v` has the key `key` and the string `value`.
pub open spec fn text_entry(v: Variable, i: int, key: Seq<char>, value: Seq<char>) -> bool {
    &&& v.kind->Dictionary_0@[i].0@ == key
    &&& text_variable(v.kind->Dictionary_0@[i].1, value)
}

/// `v` is the variable of a member: the user `user_id` with the roles
/// `roles` in the server `guild_id`.
pub open spec fn member_variable(
    v: Variable,
    user_id: u64,
    roles: Seq<u64>,
    guild_id: u64,
    username: Seq<char>,
    avatar: Option<Seq<char>>,
    global_name: Option<Seq<char>>,
) -> bool {
    &&& v.kind is Dictionary
    &&& v.interpret_as == VariableInterpretAs::Member
    &&& v.kind->Dictionary_0@.len() == 6
    &&& text_entry(v, 0, "id"@, text::decimal(user_id as nat))
    &&& v.kind->Dictionary_0@[1].0@ == "roles"@
    &&& ids_variable(v.kind->Dictionary_0@[1].1, roles)
    &&& text_entry(v, 2, "guild_id"@, text::decimal(guild_id as nat))
    &&& text_entry(v, 3, "username"@, username)
    &&& text_entry(v, 4, "avatar_url"@, avatar_text(user_id, avatar))
    &&& text_entry(v, 5, "display_name"@, shown_name(global_name, username))
}

/// `v` is the variable of the user `user_id`.
pub open spec fn user_variable(
    v: Variable,
    user_id: u64,
    username: Seq<char>,
    avatar: Option<Seq<char>>,
    global_name: Option<Seq<char>>,
) -> bool {
    &&& v.kind is Dictionary
    &&& v.interpret_as == VariableInterpretAs::Member
    &&& v.kind->Dictionary_0@.len() == 4
    &&& text_entry(v, 0, "id"@, text::decimal(user_id as nat))
    &&& text_entry(v, 1, "username"@, username)
    &&& text_entry(v, 2, "avatar_url"@, avatar_text(user_id, avatar))
    &&& text_entry(v, 3, "display_name"@, shown_name(global_name, username))
}

/// The view of an optional string slice.
pub open spec fn str_view(o: Option<&str>) -> Option<Seq<char>> {
    match o {
        Some(s) => Some(s@),
        None => None,
    }
}

/// The plain string variable holding `s`.
fn text_of(s: &str) -> (r: Variable)
    ensures
        text_variable(r, s@),
{
    Variable::from(String::from_str(s))
}

/// The avatar link, or the empty string where there is no avatar.
fn avatar_string(user_id: u64, avatar: Option<&str>) -> (r: String)
    ensures
        r@ == avatar_text(user_id, str_view(avatar)),
{
    match avatar {
        Some(hash) => {
            let mut url = String::from_str("https://cdn.discordapp.com/avatars/");
            url.append(text::decimal_string(user_id).as_str());
            url.append("/");
            url.append(hash);
            url.append(".webp");
            url
        },
        None => String::new(),
    }
}

/// The name shown for a user.
fn shown_name_string(global_name: Option<&str>, username: &str) -> (r: String)
    ensures
        r@ == shown_name(str_view(global_name), username@),
{
    match global_name {
        Some(g) => String::from_str(g),
        None => String::from_str(username),
    }
}

impl Variable {
    /// The variable of a member: the user `user_id`, with the roles `roles`
    /// in the server `guild_id`, the username `username`, the avatar hash
    /// `avatar` and the global name `global_name`.
    pub fn from_member_parts(
        user_id: u64,
        roles: &Vec<u64>,
        guild_id: u64,
        username: &str,
        avatar: Option<&str>,
        global_name: Option<&str>,
    ) -> (r: Variable)
        ensures
            member_variable(r, user_id, roles@, guild_id, username@, str_view(avatar), str_view(global_name)),
    {
        let mut entries: Vec<(String, Variable)> = Vec::new();
        entries.push((String::from_str("id"), Variable::from_id(user_id)));
        entries.push((String::from_str("roles"), Variable::from_ids(roles)));
        entries.push((String::from_str("guild_id"), Variable::from_id(guild_id)));
        entries.push((String::from_str("username"), text_of(username)));
        entries.push((String::from_str("avatar_url"), Variable::from(avatar_string(user_id, avatar))));
        entries.push((String::from_str("display_name"), Variable::from(shown_name_string(global_name, username))));
        Variable { kind: VariableKind::Dictionary(entries), interpret_as: VariableInterpretAs::Member }
    }

    /// The variable of a member from an update of it: the avatar is the
    /// member's own, else the user's.
    pub fn from_member_update(
        user_id: u64,
        roles: &Vec<u64>,
        guild_id: u64,
        username: &str,
        member_avatar: Option<&str>,
        user_avatar: Option<&str>,
        global_name: Option<&str>,
    ) -> (r: Variable)
        ensures
            member_variable(
                r,
                user_id,
                roles@,
                guild_id,
                username@,
                match member_avatar {
                    Some(a) => Some(a@),
                    None => str_view(user_avatar),
                },
                str_view(global_name),
            ),
    {
        let avatar = match member_avatar {
            Some(a) => Some(a),
            None => user_avatar,
        };
        Variable::from_member_parts(user_id, roles, guild_id, username, avatar, global_name)
    }

    /// The variable of the user `user_id`.
    pub fn from_user_parts(user_id: u64, username: &str, avatar: Option<&str>, global_name: Option<&str>) -> (r: Variable)
        ensures
            user_variable(r, user_id, username@, str_view(avatar), str_view(global_name)),
    {
        let mut entries: Vec<(String, Variable)> = Vec::new();
        entries.push((String::from_str("id"), Variable::from_id(user_id)));
        entries.push((String::from_str("username"), text_of(username)));
        entries.push((String::from_str("avatar_url"), Variable::from(avatar_string(user_id, avatar))));
        entries.push((String::from_str("display_name"), Variable::from(shown_name_string(global_name, username))));
        Variable { kind: VariableKind::Dictionary(entries), interpret_as: VariableInterpretAs::Member }
    }

    /// The variable of the message `message_id` by `author`, sent in the
    /// channel `channel_id`.
    pub fn from_message_parts(message_id: u64, author: Variable, content: &str, channel_id: u64) -> (r: Variable)
        ensures
            r.kind is Dictionary,
            r.interpret_as == VariableInterpretAs::Message,
            r.kind->Dictionary_0@.len() == 4,
            text_entry(r, 0, "id"@, text::decimal(message_id as nat)),
            r.kind->Dictionary_0@[1].0@ == "author"@,
            r.kind->Dictionary_0@[1].1 == author,
            text_entry(r, 2, "content"@, content@),
            text_entry(r, 3, "channel_id"@, text::decimal(channel_id as nat)),
    {
        let mut entries: Vec<(String, Variable)> = Vec::new();
        entries.push((String::from_str("id"), Variable::from_id(message_id)));
        entries.push((String::from_str("author"), author));
        entries.push((String::from_str("content"), text_of(content)));
        entries.push((String::from_str("channel_id"), Variable::from_id(channel_id)));
        Variable { kind: VariableKind::Dictionary(entries), interpret_as: VariableInterpretAs::Message }
    }
}

/// The roles of the changes `cs` of the kind `kind`, in order.
pub open spec fn changed_roles(cs: Seq<RoleChange>, kind: RoleChangeKind) -> Seq<u64>
    decreases cs.len(),
{
    if cs.len() == 0 {
        Seq::empty()
    } else {
        let rest = changed_roles(cs.drop_last(), kind);
        if cs.last().kind == kind {
            rest.push(cs.last().target_id)
        } else {
            rest
        }
    }
}

/// The roles of the changes of the kind `kind`, in order.
fn roles_of_kind(cs: &Vec<RoleChange>, kind: RoleChangeKind) -> (r: Vec<u64>)
    ensures
        r@ == changed_roles(cs@, kind),
{
    let len = cs.len();
    let mut out: Vec<u64> = Vec::new();
    let mut i: usize = 0;
    while i < len
        invariant
            i <= len,
            len == cs@.len(),
            out@ == changed_roles(cs@.take(i as int), kind),
        decreases len - i,
    {
        assert(cs@.take(i + 1).drop_last() =~= cs@.take(i as int));
        assert(cs@.take(i + 1).last() == cs@[i as int]);
        let same = match (cs[i].kind, kind) {
            (RoleChangeKind::Added, RoleChangeKind::Added) => true,
            (RoleChangeKind::Removed, RoleChangeKind::Removed) => true,
            _ => false,
        };
        if same {
            out.push(cs[i].target_id);
        }
        i = i + 1;
    }
    assert(cs@.take(len as int) =~= cs@);
    out
}

impl Variable {
    /// The variable that tells a document what a sync changed: under
    /// `roles`, the roles `added` and the roles `removed`, in order.
    pub fn from_role_changes(changes: &Vec<RoleChange>) -> (r: Variable)
        ensures
            r.kind is Dictionary,
            r.interpret_as == VariableInterpretAs::NonSpecific,
            r.kind->Dictionary_0@.len() == 1,
            r.kind->Dictionary_0@[0].0@ == "roles"@,
            ({
                let roles = r.kind->Dictionary_0@[0].1;
                &&& roles.kind is Dictionary
                &&& roles.interpret_as == VariableInterpretAs::NonSpecific
                &&& roles.kind->Dictionary_0@.len() == 2
                &&& roles.kind->Dictionary_0@[0].0@ == "added"@
                &&& ids_variable(roles.kind->Dictionary_0@[0].1, changed_roles(changes@, RoleChangeKind::Added))
                &&& roles.kind->Dictionary_0@[1].0@ == "removed"@
                &&& ids_variable(roles.kind->Dictionary_0@[1].1, changed_roles(changes@, RoleChangeKind::Removed))
            }),
    {
        let added = roles_of_kind(changes, RoleChangeKind::Added);
        let removed = roles_of_kind(changes, RoleChangeKind::Removed);
        let mut role_entries: Vec<(String, Variable)> = Vec::new();
        role_entries.push((String::from_str("added"), Variable::from_ids(&added)));
        role_entries.push((String::from_str("removed"), Variable::from_ids(&removed)));
        let roles = Variable { kind: VariableKind::Dictionary(role_entries), interpret_as: VariableInterpretAs::NonSpecific };
        let mut entries: Vec<(String, Variable)> = Vec::new();
        entries.push((String::from_str("roles"), roles));
        Variable { kind: VariableKind::Dictionary(entries), interpret_as: VariableInterpretAs::NonSpecific }
    }
}

} // verus!
