//! The sync actions that a server defines, and the criteria that decide
//! whether a member meets them.
use vstd::prelude::*;
use crate::model::connection::ConnectionKind;
use crate::model::hakuid::HakuId;

verus! {

/// A rule of a server: what to do to a member who meets its criteria.
#[derive(Debug)]
pub struct SyncAction {
    pub id: HakuId,
    pub kind: SyncActionKind,
    pub criteria: Criteria,
    pub display_name: String,
}

/// What a sync action does.
#[derive(Debug)]
pub enum SyncActionKind {
    AssignRoles { role_ids: Vec<u64>, can_remove: bool },
    BanMember(Reasoning),
    KickMember(Reasoning),
    ExecuteDocument,
    ControlFlowCancel(Reasoning),
}

/// Why an action bans, kicks or stops.
#[derive(Debug)]
pub struct Reasoning {
    pub reason: Option<String>,
}

/// The items to meet and how many of them must be met.
#[derive(Debug)]
pub struct Criteria {
    pub items: Vec<CriteriaItem>,
    pub quantifier: Quantifier,
}

/// How many items must be met: all of them, or at least `value`.
#[derive(Debug, Clone, Copy, PartialEq, Eq, Structural)]
pub enum Quantifier {
    All,
    AtLeast { value: u8 },
}

/// The least number of items to meet, where the quantifier names one.
pub open spec fn quantifier_minimum(q: Quantifier) -> Option<nat> {
    match q {
        Quantifier::AtLeast { value } => Some(value as nat),
        Quantifier::All => None,
    }
}

impl Quantifier {
    /// The least number of items to meet, where the quantifier names one.
    pub fn minimum(&self) -> (r: Option<usize>)
        ensures
            match r {
                Some(n) => quantifier_minimum(*self) == Some(n as nat),
                None => quantifier_minimum(*self).is_none(),
            },
    {
        match self {
            Quantifier::AtLeast { value } => Some(*value as usize),
            _ => None,
        }
    }
}

/// One condition of a criteria.
#[derive(Debug)]
pub enum CriteriaItem {
    HakumiUserConnection { connection_kind: ConnectionKind },
    MellowServerSyncingActions { action_ids: Vec<HakuId>, quantifier: Quantifier },
    RobloxGroupMembership { group_id: u64 },
    RobloxGroupMembershipRole { role_id: u64, group_id: u64 },
    RobloxGroupMembershipRoleRankInRange { group_id: u64, range_lower: u8, range_upper: u8 },
    PatreonCampaignTierSubscription { tier_id: String, campaign_id: String },
}

/// The kind of connection that an item looks at, if any.
pub open spec fn relevant_connection_spec(item: CriteriaItem) -> Option<ConnectionKind> {
    match item {
        CriteriaItem::HakumiUserConnection { connection_kind } => Some(connection_kind),
        CriteriaItem::PatreonCampaignTierSubscription { .. } => Some(ConnectionKind::Patreon),
        CriteriaItem::RobloxGroupMembership { .. } => Some(ConnectionKind::Roblox),
        CriteriaItem::RobloxGroupMembershipRole { .. } => Some(ConnectionKind::Roblox),
        CriteriaItem::RobloxGroupMembershipRoleRankInRange { .. } => Some(ConnectionKind::Roblox),
        CriteriaItem::MellowServerSyncingActions { .. } => None,
    }
}

impl CriteriaItem {
    /// The kind of connection that this item looks at, if any.
    pub fn relevant_connection(&self) -> (r: Option<ConnectionKind>)
        ensures
            r == relevant_connection_spec(*self),
    {
        match self {
            CriteriaItem::HakumiUserConnection { connection_kind } => Some(*connection_kind),
            CriteriaItem::PatreonCampaignTierSubscription { .. } => Some(ConnectionKind::Patreon),
            CriteriaItem::RobloxGroupMembership { .. } => Some(ConnectionKind::Roblox),
            CriteriaItem::RobloxGroupMembershipRole { .. } => Some(ConnectionKind::Roblox),
            CriteriaItem::RobloxGroupMembershipRoleRankInRange { .. } => Some(ConnectionKind::Roblox),
            _ => None,
        }
    }
}

} // verus!
