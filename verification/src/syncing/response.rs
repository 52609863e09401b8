//! What a member is told after they sync their profile, or have it synced.
use vstd::prelude::*;
use crate::text;
use crate::model::connection::ConnectionKind;
use crate::server::logging::{mention, mention_text, role_change_lines, role_change_list};
use crate::syncing::plan::SyncMemberResult;
use crate::syncing::{RoleChange, RoleChangeKind, SyncingIssue};

verus! {

/// The name of a kind of connection, as its `Debug` form writes it.
pub open spec fn kind_name(kind: ConnectionKind) -> Seq<char> {
    match kind {
        ConnectionKind::Discord => "Discord"@,
        ConnectionKind::GitHub => "GitHub"@,
        ConnectionKind::Roblox => "Roblox"@,
        ConnectionKind::YouTube => "YouTube"@,
        ConnectionKind::Patreon => "Patreon"@,
    }
}

/// The name of a kind of connection.
pub fn kind_name_text(kind: ConnectionKind) -> (r: &'static str)
    ensures
        r@ == kind_name(kind),
{
    match kind {
        ConnectionKind::Discord => "Discord",
        ConnectionKind::GitHub => "GitHub",
        ConnectionKind::Roblox => "Roblox",
        ConnectionKind::YouTube => "YouTube",
        ConnectionKind::Patreon => "Patreon",
    }
}

/// What a member is told of an issue in the server `guild_id`:
/// `website_token` signs them in to the website, and `request_token` names
/// the request to reconnect a connection.
pub open spec fn issue_text(
    issue: SyncingIssue,
    guild_id: u64,
    website_token: Seq<char>,
    request_token: Seq<char>,
) -> Seq<char> {
    match issue {
        SyncingIssue::MissingConnections => "You haven't given this server access to all connections yet, fix that [here](<https://hakumi.cafe/mellow/server/"@
            + text::decimal(guild_id as nat) + "/user_settings?mt="@ + website_token + ">)!"@,
        SyncingIssue::MissingOAuthAuthorisation(kind) => "Your "@ + kind_name(kind)
            + " connection was invalidated, please [reconnect it](<https://www.patreon.com/oauth2/authorize?client_id=BaKp_8PIeBxx0cfJoEEaVxVQMxD3c_IUFS_qCSu5gNFnXLL5c4Qw4YMPtgMJG-n9&redirect_uri=https%3A%2F%2Fapi-new.hakumi.cafe%2Fv1%2Fconnection_callback%2F4&scope=identity%20identity.memberships&response_type=code&state=m1-"@
            + request_token + ">)."@,
    }
}

impl SyncingIssue {
    /// What a member is told of this issue in the server `guild_id`;
    /// `request_token` is read only for a connection to reconnect.
    pub fn display(&self, guild_id: u64, website_token: &str, request_token: &str) -> (r: String)
        ensures
            r@ == issue_text(*self, guild_id, website_token@, request_token@),
    {
        match self {
            SyncingIssue::MissingConnections => {
                let mut r = String::from_str(
                    "You haven't given this server access to all connections yet, fix that [here](<https://hakumi.cafe/mellow/server/",
                );
                r.append(text::decimal_string(guild_id).as_str());
                r.append("/user_settings?mt=");
                r.append(website_token);
                r.append(">)!");
                r
            },
            SyncingIssue::MissingOAuthAuthorisation(kind) => {
                let mut r = String::from_str("Your ");
                r.append(kind_name_text(*kind));
                r.append(
                    " connection was invalidated, please [reconnect it](<https://www.patreon.com/oauth2/authorize?client_id=BaKp_8PIeBxx0cfJoEEaVxVQMxD3c_IUFS_qCSu5gNFnXLL5c4Qw4YMPtgMJG-n9&redirect_uri=https%3A%2F%2Fapi-new.hakumi.cafe%2Fv1%2Fconnection_callback%2F4&scope=identity%20identity.memberships&response_type=code&state=m1-",
                );
                r.append(request_token);
                r.append(">).");
                r
            },
        }
    }
}

/// The texts of the issues, the `i`th issue naming the request `tokens[i]`.
pub open spec fn issue_lines(
    issues: Seq<SyncingIssue>,
    guild_id: u64,
    website_token: Seq<char>,
    tokens: Seq<Seq<char>>,
) -> Seq<Seq<char>> {
    Seq::new(issues.len(), |i: int| issue_text(issues[i], guild_id, website_token, tokens[i]))
}

/// The texts of the issues, one per line; the `i`th issue names the
/// request `tokens[i]`.
pub fn format_many(items: &Vec<SyncingIssue>, guild_id: u64, website_token: &str, tokens: &Vec<String>) -> (r: String)
    requires
        tokens@.len() == items@.len(),
    ensures
        r@ == text::join(issue_lines(items@, guild_id, website_token@, text::views(tokens@)), "\n"@),
{
    let len = items.len();
    let mut lines: Vec<String> = Vec::new();
    let mut i: usize = 0;
    while i < len
        invariant
            i <= len,
            len == items@.len(),
            len == tokens@.len(),
            lines@.len() == i,
            forall|j: int|
                0 <= j < i ==> #[trigger] lines@[j]@ == issue_text(items@[j], guild_id, website_token@, tokens@[j]@),
        decreases len - i,
    {
        lines.push(items[i].display(guild_id, website_token, tokens[i].as_str()));
        i = i + 1;
    }
    assert(text::views(lines@) =~= issue_lines(items@, guild_id, website_token@, text::views(tokens@)));
    text::join_strings(&lines, "\n")
}

/// Some change gives a role.
pub open spec fn has_added(cs: Seq<RoleChange>) -> bool {
    exists|i: int| 0 <= i < cs.len() && cs[i].kind == RoleChangeKind::Added
}

/// Some change takes a role.
pub open spec fn has_removed(cs: Seq<RoleChange>) -> bool {
    exists|i: int| 0 <= i < cs.len() && cs[i].kind == RoleChangeKind::Removed
}

/// Whether some change gives a role, and whether some change takes one.
pub fn role_flags(cs: &Vec<RoleChange>) -> (r: (bool, bool))
    ensures
        r.0 == has_added(cs@),
        r.1 == has_removed(cs@),
{
    let len = cs.len();
    let mut added = false;
    let mut removed = false;
    let mut i: usize = 0;
    while i < len && !(added && removed)
        invariant
            i <= len,
            len == cs@.len(),
            added == exists|j: int| 0 <= j < i && cs@[j].kind == RoleChangeKind::Added,
            removed == exists|j: int| 0 <= j < i && cs@[j].kind == RoleChangeKind::Removed,
        decreases len - i,
    {
        match cs[i].kind {
            RoleChangeKind::Added => added = true,
            RoleChangeKind::Removed => removed = true,
        }
        i = i + 1;
    }
    (added, removed)
}

/// How the member is named: themselves, or by mention where someone else synced them.
pub open spec fn pronoun(forced: bool, member_id: u64) -> Seq<char> {
    if forced {
        mention(member_id) + " has"@
    } else {
        "You have"@
    }
}

/// `Their` where someone else synced the member, else `Your`.
pub open spec fn determiner(forced: bool) -> Seq<char> {
    if forced {
        "Their"@
    } else {
        "Your"@
    }
}

/// `they're` where someone else synced the member, else `you're`.
pub open spec fn contraction(forced: bool) -> Seq<char> {
    if forced {
        "they're"@
    } else {
        "you're"@
    }
}

/// What the member is told of the roles that changed.
pub open spec fn role_verdict(forced: bool, member_id: u64, added: bool, removed: bool) -> Seq<char> {
    if added && removed {
        pronoun(forced, member_id) + " been assigned and retracted roles, ...equality! o(>ω<)o"@
    } else if added {
        pronoun(forced, member_id) + " been assigned new roles, "@ + if forced {
            "yippee!"@
        } else {
            "hold them dearly to your heart! ♡(>ᴗ•)"@
        }
    } else {
        pronoun(forced, member_id) + " been retracted some roles, that's either a good thing, or a bad thing! ┐(︶▽︶)┌"@
    }
}

/// Law: after who it speaks of, the verdict on a member's roles says
/// ` been retracted` exactly when no role was given, ` been assigned new
/// roles` exactly when some were given and none taken, and ` been assigned
/// and retracted` exactly when some were given and some taken.
pub proof fn lemma_verdict_words(forced: bool, member_id: u64, added: bool, removed: bool)
    ensures
        ({
            let v = role_verdict(forced, member_id, added, removed);
            let p = pronoun(forced, member_id).len() as int;
            &&& (v.len() >= p + 15 && v.subrange(p, p + 15) == " been retracted"@) <==> !added
            &&& (v.len() >= p + 24 && v.subrange(p, p + 24) == " been assigned new roles"@) <==> (added && !removed)
            &&& (v.len() >= p + 28 && v.subrange(p, p + 28) == " been assigned and retracted"@) <==> (added && removed)
        }),
{
    reveal_strlit(" been retracted");
    reveal_strlit(" been assigned new roles");
    reveal_strlit(" been assigned and retracted");
    reveal_strlit(" been assigned and retracted roles, ...equality! o(>ω<)o");
    reveal_strlit(" been assigned new roles, ");
    reveal_strlit("yippee!");
    reveal_strlit("hold them dearly to your heart! ♡(>ᴗ•)");
    reveal_strlit(" been retracted some roles, that's either a good thing, or a bad thing! ┐(︶▽︶)┌");
    let v = role_verdict(forced, member_id, added, removed);
    let pr = pronoun(forced, member_id);
    let p = pr.len() as int;
    let tail = v.subrange(p, v.len() as int);
    assert(v =~= pr + tail);
    if added && removed {
        assert(tail =~= " been assigned and retracted roles, ...equality! o(>ω<)o"@);
        assert(v.subrange(p, p + 28) =~= " been assigned and retracted"@);
        assert(v[p + 6] == 'a');
        assert(" been retracted"@[6] == 'r');
        assert(v[p + 15] == 'a');
        assert(" been assigned new roles"@[15] == 'n');
    } else if added {
        let end = if forced {
            "yippee!"@
        } else {
            "hold them dearly to your heart! ♡(>ᴗ•)"@
        };
        assert(tail =~= " been assigned new roles, "@ + end);
        assert(v.subrange(p, p + 24) =~= " been assigned new roles"@);
        assert(v[p + 6] == 'a');
        assert(" been retracted"@[6] == 'r');
        assert(v[p + 15] == 'n');
        assert(" been assigned and retracted"@[15] == 'a');
    } else {
        assert(tail =~= " been retracted some roles, that's either a good thing, or a bad thing! ┐(︶▽︶)┌"@);
        assert(v.subrange(p, p + 15) =~= " been retracted"@);
        assert(v[p + 6] == 'r');
        assert(" been assigned new roles"@[6] == 'a');
        assert(" been assigned and retracted"@[6] == 'a');
    }
}

/// The heading of the answer to a sync that changed the profile.
pub open spec fn changed_heading(
    forced: bool,
    member_id: u64,
    changes: Seq<RoleChange>,
    has_issues: bool,
    issues_text: Seq<char>,
) -> Seq<char> {
    if !has_issues {
        "<:check2circle:1219235152580837419>  "@ + determiner(forced) + " server profile has been updated.\n"@
            + role_verdict(forced, member_id, has_added(changes), has_removed(changes))
    } else {
        "There was an issue while syncing your profile.\n"@ + issues_text
    }
}

/// The main part of the answer to a sync.
pub open spec fn response_body(result: SyncMemberResult, forced: bool, member_id: u64, issues_text: Seq<char>) -> Seq<char> {
    if result.profile_changed {
        "## "@ + changed_heading(forced, member_id, result.role_changes@, result.issues@.len() > 0, issues_text)
            + "\n```diff\n"@ + text::join(role_change_lines(result.role_changes@), "\n"@) + "```"@
    } else if result.issues@.len() > 0 {
        "## There was an issue while syncing your profile.\n"@ + issues_text + "\n"@
    } else {
        "## <:mellow_squircled:1225413361777508393>  "@ + determiner(forced)
            + " server profile is already up to par!\nAccording to my simulated brain, there's nothing to change here, "@
            + contraction(forced)
            + " all set!\nIf you were expecting a *different* result, you may need to try again in a few minutes, apologies!\n"@
    }
}

/// The answer to a sync in the server `guild_id`: `forced_by` is the user
/// who synced someone else, `issues_text` the issues' texts, one per line.
pub open spec fn sync_response(
    result: SyncMemberResult,
    forced_by: Option<u64>,
    member_id: u64,
    guild_id: u64,
    website_token: Seq<char>,
    issues_text: Seq<char>,
) -> Seq<char> {
    response_body(result, forced_by.is_some(), member_id, issues_text)
        + "\n[<:gear_fill:1224667889592700950>  Your Server Preferences <:external_link:1225472071417729065>](<https://hakumi.cafe/mellow/server/"@
        + text::decimal(guild_id as nat) + "/user_settings?mt="@ + website_token
        + ">)   •  [<:personraisedhand:1219234152709095424> Get Support](<https://discord.com/invite/rs3r4dQu9P>)"@
}

fn pronoun_text(forced: bool, member_id: u64) -> (r: String)
    ensures
        r@ == pronoun(forced, member_id),
{
    if forced {
        let mut r = mention_text(member_id);
        r.append(" has");
        r
    } else {
        String::from_str("You have")
    }
}

fn determiner_text(forced: bool) -> (r: &'static str)
    ensures
        r@ == determiner(forced),
{
    if forced {
        "Their"
    } else {
        "Your"
    }
}

fn contraction_text(forced: bool) -> (r: &'static str)
    ensures
        r@ == contraction(forced),
{
    if forced {
        "they're"
    } else {
        "you're"
    }
}

fn role_verdict_text(forced: bool, member_id: u64, added: bool, removed: bool) -> (r: String)
    ensures
        r@ == role_verdict(forced, member_id, added, removed),
{
    let mut r = pronoun_text(forced, member_id);
    if added && removed {
        r.append(" been assigned and retracted roles, ...equality! o(>ω<)o");
    } else if added {
        r.append(" been assigned new roles, ");
        if forced {
            r.append("yippee!");
        } else {
            r.append("hold them dearly to your heart! ♡(>ᴗ•)");
        }
    } else {
        r.append(" been retracted some roles, that's either a good thing, or a bad thing! ┐(︶▽︶)┌");
    }
    r
}

fn changed_heading_text(forced: bool, member_id: u64, changes: &Vec<RoleChange>, has_issues: bool, issues_text: &str) -> (r: String)
    ensures
        r@ == changed_heading(forced, member_id, changes@, has_issues, issues_text@),
{
    if !has_issues {
        let (added, removed) = role_flags(changes);
        let mut r = String::from_str("<:check2circle:1219235152580837419>  ");
        r.append(determiner_text(forced));
        r.append(" server profile has been updated.\n");
        r.append(role_verdict_text(forced, member_id, added, removed).as_str());
        r
    } else {
        let mut r = String::from_str("There was an issue while syncing your profile.\n");
        r.append(issues_text);
        r
    }
}

/// The answer to a sync in the server `guild_id`: `forced_by` is the user
/// who synced someone else, `issues_text` the issues' texts, one per line.
pub fn sync_response_text(
    result: &SyncMemberResult,
    forced_by: Option<u64>,
    member_id: u64,
    guild_id: u64,
    website_token: &str,
    issues_text: &str,
) -> (r: String)
    ensures
        r@ == sync_response(*result, forced_by, member_id, guild_id, website_token@, issues_text@),
{
    let forced = forced_by.is_some();
    let mut r = if result.profile_changed {
        let mut b = String::from_str("## ");
        b.append(
            changed_heading_text(forced, member_id, &result.role_changes, result.issues.len() > 0, issues_text).as_str(),
        );
        b.append("\n```diff\n");
        b.append(role_change_list(&result.role_changes).as_str());
        b.append("```");
        b
    } else if result.issues.len() > 0 {
        let mut b = String::from_str("## There was an issue while syncing your profile.\n");
        b.append(issues_text);
        b.append("\n");
        b
    } else {
        let mut b = String::from_str("## <:mellow_squircled:1225413361777508393>  ");
        b.append(determiner_text(forced));
        b.append(" server profile is already up to par!\nAccording to my simulated brain, there's nothing to change here, ");
        b.append(contraction_text(forced));
        b.append(
            " all set!\nIf you were expecting a *different* result, you may need to try again in a few minutes, apologies!\n",
        );
        b
    };
    r.append(
        "\n[<:gear_fill:1224667889592700950>  Your Server Preferences <:external_link:1225472071417729065>](<https://hakumi.cafe/mellow/server/",
    );
    r.append(text::decimal_string(guild_id).as_str());
    r.append("/user_settings?mt=");
    r.append(website_token);
    r.append(">)   •  [<:personraisedhand:1219234152709095424> Get Support](<https://discord.com/invite/rs3r4dQu9P>)");
    r
}

} // verus!
