//! Users and the accounts of other services that they connected.
use vstd::prelude::*;
use crate::model::hakuid::HakuId;

verus! {

/// The service that a connection belongs to.
#[derive(Debug, Clone, Copy, PartialEq, Eq, Structural)]
pub enum ConnectionKind {
    Discord,
    GitHub,
    Roblox,
    YouTube,
    Patreon,
}

/// An OAuth grant held for a connection; `expires_at` is in seconds since
/// the Unix epoch.
#[derive(Debug, Clone)]
pub struct OAuthAuthorisation {
    pub id: u64,
    pub token_type: String,
    pub expires_at: i64,
    pub access_token: String,
    pub refresh_token: String,
}

/// A user's account on another service; `sub` is that account's id there.
#[derive(Debug, Clone)]
pub struct Connection {
    pub id: HakuId,
    pub sub: String,
    pub kind: ConnectionKind,
    pub username: Option<String>,
    pub display_name: Option<String>,
    pub oauth_authorisations: Vec<OAuthAuthorisation>,
}

/// The subjects of the Roblox connections among `c`, in order.
pub open spec fn roblox_subjects_of(c: Seq<Connection>) -> Seq<Seq<char>>
    decreases c.len(),
{
    if c.len() == 0 {
        Seq::empty()
    } else if c.last().kind == ConnectionKind::Roblox {
        roblox_subjects_of(c.drop_last()).push(c.last().sub@)
    } else {
        roblox_subjects_of(c.drop_last())
    }
}

/// Adds the subjects of the Roblox connections among `c` to `out`, in order.
pub fn push_roblox_subjects(out: &mut Vec<String>, c: &Vec<Connection>)
    ensures
        crate::text::views(final(out)@) == crate::text::views(old(out)@) + roblox_subjects_of(c@),
{
    let ghost start = crate::text::views(out@);
    let len = c.len();
    let mut i: usize = 0;
    proof {
        assert(c@.take(0) =~= Seq::<Connection>::empty());
        assert(start + roblox_subjects_of(c@.take(0)) =~= start);
    }
    while i < len
        invariant
            i <= len,
            len == c@.len(),
            crate::text::views(out@) == start + roblox_subjects_of(c@.take(i as int)),
        decreases len - i,
    {
        let ghost before = out@;
        proof {
            assert(c@.take(i + 1).drop_last() =~= c@.take(i as int));
            assert(c@.take(i + 1).last() == c@[i as int]);
        }
        if c[i].kind == ConnectionKind::Roblox {
            out.push(c[i].sub.clone());
            proof {
                assert(crate::text::views(out@) =~= crate::text::views(before).push(c@[i as int].sub@));
            }
        }
        i = i + 1;
    }
    proof {
        assert(c@.take(len as int) =~= c@);
    }
}

/// Whether two connection kinds are the same.
pub fn same_kind(a: ConnectionKind, b: ConnectionKind) -> (r: bool)
    ensures
        r == (a == b),
{
    match (a, b) {
        (ConnectionKind::Discord, ConnectionKind::Discord) => true,
        (ConnectionKind::GitHub, ConnectionKind::GitHub) => true,
        (ConnectionKind::Roblox, ConnectionKind::Roblox) => true,
        (ConnectionKind::YouTube, ConnectionKind::YouTube) => true,
        (ConnectionKind::Patreon, ConnectionKind::Patreon) => true,
        _ => false,
    }
}

/// The index of the first connection of the given kind.
pub open spec fn first_of_kind_from(c: Seq<Connection>, kind: ConnectionKind, i: int) -> Option<int>
    decreases c.len() - i,
{
    if i < 0 || i >= c.len() {
        None
    } else if c[i].kind == kind {
        Some(i)
    } else {
        first_of_kind_from(c, kind, i + 1)
    }
}

/// The index of the first connection of the given kind.
pub open spec fn first_of_kind(c: Seq<Connection>, kind: ConnectionKind) -> Option<int> {
    first_of_kind_from(c, kind, 0)
}

/// Some connection has the given kind.
pub open spec fn has_kind(c: Seq<Connection>, kind: ConnectionKind) -> bool {
    exists|i: int| 0 <= i < c.len() && (#[trigger] c[i]).kind == kind
}

/// The first connection found has the kind asked for, none before it has,
/// and none is found exactly when none has it.
pub proof fn lemma_first_of_kind(c: Seq<Connection>, kind: ConnectionKind)
    ensures
        match first_of_kind(c, kind) {
            Some(i) => 0 <= i < c.len() && c[i].kind == kind && forall|j: int|
                0 <= j < i ==> c[j].kind != kind,
            None => !has_kind(c, kind),
        },
{
    lemma_first_of_kind_from(c, kind, 0);
}

proof fn lemma_first_of_kind_from(c: Seq<Connection>, kind: ConnectionKind, i: int)
    requires
        0 <= i,
    ensures
        match first_of_kind_from(c, kind, i) {
            Some(j) => i <= j < c.len() && c[j].kind == kind && forall|l: int|
                i <= l < j ==> c[l].kind != kind,
            None => forall|l: int| i <= l < c.len() ==> c[l].kind != kind,
        },
    decreases c.len() - i,
{
    if i < c.len() && c[i].kind != kind {
        lemma_first_of_kind_from(c, kind, i + 1);
    }
}

/// The index of the first connection of the given kind.
pub fn find_kind(c: &Vec<Connection>, kind: ConnectionKind) -> (r: Option<usize>)
    ensures
        match r {
            Some(i) => first_of_kind(c@, kind) == Some(i as int),
            None => first_of_kind(c@, kind).is_none(),
        },
{
    let len = c.len();
    let mut i: usize = 0;
    while i < len
        invariant
            i <= len,
            len == c@.len(),
            first_of_kind(c@, kind) == first_of_kind_from(c@, kind, i as int),
        decreases len - i,
    {
        if same_kind(c[i].kind, kind) {
            return Some(i);
        }
        i = i + 1;
    }
    None
}

/// How a connection is shown in a server's log: the service, and a link
/// to the account named by its display name.
pub open spec fn connection_text(c: Connection) -> Seq<char> {
    let name = match c.display_name {
        Some(n) => n@,
        None => "Unknown"@,
    };
    let username = match c.username {
        Some(u) => u@,
        None => "@unknown"@,
    };
    match c.kind {
        ConnectionKind::Discord => "<:discord:1137058089980416080> Discord — ["@ + name + "](https://discord.com/users/"@
            + c.sub@ + ")"@,
        ConnectionKind::GitHub => "<:github:1143983126792642661> GitHub — ["@ + name + "](https://github.com/"@
            + username + ")"@,
        ConnectionKind::Roblox => "<:roblox:1175038688271536169> Roblox — ["@ + name
            + "](https://www.roblox.com/users/"@ + c.sub@ + ")"@,
        ConnectionKind::YouTube => "placeholder"@,
        ConnectionKind::Patreon => "<:Patreon:1219706758742933586> Patreon — ["@ + name
            + "](https://www.patreon.com/user?u="@ + c.sub@ + ")"@,
    }
}

impl Connection {
    /// How this connection is shown in a server's log.
    pub fn display(&self) -> (r: String)
        ensures
            r@ == connection_text(*self),
    {
        let name = match &self.display_name {
            Some(n) => n.clone(),
            None => String::from_str("Unknown"),
        };
        let username = match &self.username {
            Some(u) => u.clone(),
            None => String::from_str("@unknown"),
        };
        match self.kind {
            ConnectionKind::Discord => {
                let mut r = String::from_str("<:discord:1137058089980416080> Discord — [");
                r.append(name.as_str());
                r.append("](https://discord.com/users/");
                r.append(self.sub.as_str());
                r.append(")");
                r
            },
            ConnectionKind::GitHub => {
                let mut r = String::from_str("<:github:1143983126792642661> GitHub — [");
                r.append(name.as_str());
                r.append("](https://github.com/");
                r.append(username.as_str());
                r.append(")");
                r
            },
            ConnectionKind::Roblox => {
                let mut r = String::from_str("<:roblox:1175038688271536169> Roblox — [");
                r.append(name.as_str());
                r.append("](https://www.roblox.com/users/");
                r.append(self.sub.as_str());
                r.append(")");
                r
            },
            ConnectionKind::YouTube => String::from_str("placeholder"),
            ConnectionKind::Patreon => {
                let mut r = String::from_str("<:Patreon:1219706758742933586> Patreon — [");
                r.append(name.as_str());
                r.append("](https://www.patreon.com/user?u=");
                r.append(self.sub.as_str());
                r.append(")");
                r
            },
        }
    }
}

} // verus!
