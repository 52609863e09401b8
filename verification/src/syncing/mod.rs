//! Syncing a member's roles, nickname and standing with the sync actions of
//! their server.
use vstd::prelude::*;
use crate::model::connection::ConnectionKind;
use crate::model::hakuid::HakuId;
use crate::text;

pub mod criteria;
pub mod plan;
pub mod roles;
pub mod response;
pub mod metadata;
pub mod sign_ups;
pub mod checks;

verus! {

/// What started a sync.
#[derive(Debug, Clone, Copy)]
pub enum SyncingInitiator {
    Automatic,
    ForcedBy(u64),
    Manual,
    VisualScriptingDocument(HakuId),
}

/// A problem that stopped a sync from seeing everything about a member.
#[derive(Debug, Clone, Copy, PartialEq, Eq, Structural)]
pub enum SyncingIssue {
    MissingConnections,
    MissingOAuthAuthorisation(ConnectionKind),
}

/// A role given or taken by a sync.
#[derive(Debug, Clone)]
pub struct RoleChange {
    pub kind: RoleChangeKind,
    pub target_id: u64,
    pub display_name: String,
}

/// Whether a role was given or taken.
#[derive(Debug, Clone, Copy, PartialEq, Eq, Structural)]
pub enum RoleChangeKind {
    Added,
    Removed,
}

/// A role change as plain values: its kind, its role, and the role's name.
pub open spec fn change_view(c: RoleChange) -> (RoleChangeKind, u64, Seq<char>) {
    (c.kind, c.target_id, c.display_name@)
}

/// The role changes `v` as plain values.
pub open spec fn changes_view(v: Seq<RoleChange>) -> Seq<(RoleChangeKind, u64, Seq<char>)> {
    v.map_values(|c: RoleChange| change_view(c))
}

impl RoleChange {
    /// A copy of this role change.
    pub fn duplicate(&self) -> (r: RoleChange)
        ensures
            change_view(r) == change_view(*self),
    {
        RoleChange { kind: self.kind, target_id: self.target_id, display_name: self.display_name.clone() }
    }
}

/// A copy of the role changes `v`.
pub fn copy_changes(v: &Vec<RoleChange>) -> (r: Vec<RoleChange>)
    ensures
        changes_view(r@) == changes_view(v@),
{
    let len = v.len();
    let mut out: Vec<RoleChange> = Vec::new();
    let mut i: usize = 0;
    while i < len
        invariant
            i <= len,
            len == v@.len(),
            out@.len() == i,
            forall|j: int| 0 <= j < i ==> #[trigger] change_view(out@[j]) == change_view(v@[j]),
        decreases len - i,
    {
        out.push(v[i].duplicate());
        i = i + 1;
    }
    assert(changes_view(out@) =~= changes_view(v@));
    out
}

/// A nickname before and after a sync.
#[derive(Debug, Clone)]
pub struct NicknameChange(pub Option<String>, pub Option<String>);

/// A nickname change as plain values.
pub open spec fn nickname_view(c: Option<NicknameChange>) -> Option<(Option<Seq<char>>, Option<Seq<char>>)> {
    match c {
        Some(n) => Some((text::opt_view(n.0), text::opt_view(n.1))),
        None => None,
    }
}

/// A copy of a nickname change.
pub fn copy_nickname(c: &Option<NicknameChange>) -> (r: Option<NicknameChange>)
    ensures
        nickname_view(r) == nickname_view(*c),
{
    match c {
        Some(n) => Some(NicknameChange(text::clone_opt(&n.0), text::clone_opt(&n.1))),
        None => None,
    }
}

/// A copy of the ids `v`.
pub fn copy_haku_ids(v: &Vec<HakuId>) -> (r: Vec<HakuId>)
    ensures
        r@ == v@,
{
    let len = v.len();
    let mut out: Vec<HakuId> = Vec::new();
    let mut i: usize = 0;
    while i < len
        invariant
            i <= len,
            len == v@.len(),
            out@ == v@.take(i as int),
        decreases len - i,
    {
        out.push(v[i]);
        assert(v@.take(i as int).push(v@[i as int]) =~= v@.take(i + 1));
        i = i + 1;
    }
    assert(v@.take(len as int) =~= v@);
    out
}

/// A Patreon membership of a user: the campaign and the tiers it entitles.
#[derive(Debug, Clone)]
pub struct PatreonPledge {
    pub campaign_id: String,
    pub connection_id: HakuId,
    pub tiers: Vec<String>,
    pub user_id: u128,
}

/// A Roblox account's role in a Roblox group.
#[derive(Debug, Clone)]
pub struct RobloxMembership {
    pub rank: u8,
    pub role: u64,
    pub user_id: String,
    pub group_id: u64,
}

/// What was fetched from other services before a sync.
#[derive(Debug)]
pub struct ConnectionMetadata {
    pub issues: Vec<SyncingIssue>,
    pub patreon_pledges: Vec<PatreonPledge>,
    pub roblox_memberships: Vec<RobloxMembership>,
}

/// Whether a member stays, was banned, or was kicked.
#[derive(Debug, Clone, Copy, PartialEq, Eq, Structural)]
pub enum MemberStatus {
    Remains,
    Banned,
    Kicked,
}

impl MemberStatus {
    /// Whether the member was removed from the server.
    pub fn removed(&self) -> (r: bool)
        ensures
            r == (*self == MemberStatus::Banned || *self == MemberStatus::Kicked),
    {
        match self {
            MemberStatus::Banned | MemberStatus::Kicked => true,
            MemberStatus::Remains => false,
        }
    }
}

} // verus!
