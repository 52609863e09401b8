//! What Patreon tells of a user's memberships and of a campaign's tiers,
//! and what the bot makes of it.
use vstd::prelude::*;
use crate::text;
use crate::model::hakuid::HakuId;
use crate::model::connection::OAuthAuthorisation;
use crate::syncing::PatreonPledge;
use crate::visual_scripting::variable::{Variable, VariableInterpretAs, VariableKind, dict_from, plain};

verus! {

/// A Patreon user's identity, with what it includes.
#[derive(Debug)]
pub struct UserIdentity {
    pub included: Option<Vec<UserIdentityField>>,
}

/// One record included with an identity.
#[derive(Debug)]
pub enum UserIdentityField {
    Tier,
    Member(Member),
    Campaign,
}

/// A membership of a campaign.
#[derive(Debug)]
pub struct Member {
    pub attributes: MemberAttributes,
    pub relationships: Relationships,
}

/// What a membership says of itself.
#[derive(Debug)]
pub struct MemberAttributes {
    pub patron_status: Option<String>,
}

/// The campaign of a membership and the tiers it entitles.
#[derive(Debug)]
pub struct Relationships {
    pub campaign: Relationship<Campaign>,
    pub currently_entitled_tiers: Relationship<CurrentlyEntitledTier>,
}

/// A related record.
#[derive(Debug)]
pub struct Relationship<T> {
    pub data: T,
}

/// A campaign, by id.
#[derive(Debug)]
pub struct Campaign {
    pub id: String,
}

/// The tiers a membership currently entitles.
#[derive(Debug)]
pub struct CurrentlyEntitledTier(pub Vec<Tier>);

/// A tier, by id.
#[derive(Debug)]
pub struct Tier {
    pub id: String,
}

/// A campaign with the number of patrons of each of its tiers.
#[derive(Debug)]
pub struct Campaign2 {
    pub tiers: Vec<Tier2>,
}

/// A tier with the number of its patrons.
#[derive(Debug, Clone, Copy)]
pub struct Tier2 {
    pub patron_count: u64,
}

/// The memberships among the included records, in order.
pub open spec fn members_of(fields: Seq<UserIdentityField>) -> Seq<Member>
    decreases fields.len(),
{
    if fields.len() == 0 {
        Seq::empty()
    } else {
        let rest = members_of(fields.drop_last());
        match fields.last() {
            UserIdentityField::Member(m) => rest.push(m),
            _ => rest,
        }
    }
}

/// The ids of the tiers `ts`.
pub open spec fn tier_ids(ts: Seq<Tier>) -> Seq<Seq<char>> {
    ts.map_values(|t: Tier| t.id@)
}

/// `p` is the pledge that the membership `m` of the user `user_id` stands
/// for, seen through the connection `connection_id`.
pub open spec fn pledge_of(p: PatreonPledge, m: Member, connection_id: HakuId, user_id: u128) -> bool {
    &&& p.campaign_id@ == m.relationships.campaign.data.id@
    &&& p.connection_id == connection_id
    &&& text::views(p.tiers@) == tier_ids(m.relationships.currently_entitled_tiers.data.0@)
    &&& p.user_id == user_id
}

/// The ids of the tiers `ts`, in order.
fn copy_tier_ids(ts: &Vec<Tier>) -> (r: Vec<String>)
    ensures
        text::views(r@) == tier_ids(ts@),
{
    let len = ts.len();
    let mut out: Vec<String> = Vec::new();
    let mut i: usize = 0;
    while i < len
        invariant
            i <= len,
            len == ts@.len(),
            out@.len() == i,
            forall|j: int| 0 <= j < i ==> #[trigger] out@[j]@ == ts@[j].id@,
        decreases len - i,
    {
        out.push(ts[i].id.clone());
        i = i + 1;
    }
    assert(text::views(out@) =~= tier_ids(ts@));
    out
}

/// The pledges of the user `user_id` that the identity shows, seen through
/// the connection `connection_id`: one for each membership, in order.
pub fn pledges_from_identity(identity: &UserIdentity, connection_id: HakuId, user_id: u128) -> (r: Vec<PatreonPledge>)
    ensures
        match identity.included {
            Some(fields) => {
                &&& r@.len() == members_of(fields@).len()
                &&& forall|i: int|
                    0 <= i < r@.len() ==> pledge_of(#[trigger] r@[i], members_of(fields@)[i], connection_id, user_id)
            },
            None => r@.len() == 0,
        },
{
    let mut out: Vec<PatreonPledge> = Vec::new();
    match &identity.included {
        Some(fields) => {
            let len = fields.len();
            let mut i: usize = 0;
            while i < len
                invariant
                    i <= len,
                    len == fields@.len(),
                    out@.len() == members_of(fields@.take(i as int)).len(),
                    forall|j: int|
                        0 <= j < out@.len() ==> pledge_of(
                            #[trigger] out@[j],
                            members_of(fields@.take(i as int))[j],
                            connection_id,
                            user_id,
                        ),
                decreases len - i,
            {
                let ghost before = fields@.take(i as int);
                assert(fields@.take(i + 1).drop_last() =~= before);
                assert(fields@.take(i + 1).last() == fields@[i as int]);
                match &fields[i] {
                    UserIdentityField::Member(m) => {
                        let pledge = PatreonPledge {
                            campaign_id: m.relationships.campaign.data.id.clone(),
                            connection_id,
                            tiers: copy_tier_ids(&m.relationships.currently_entitled_tiers.data.0),
                            user_id,
                        };
                        out.push(pledge);
                    },
                    _ => {},
                }
                i = i + 1;
            }
            assert(fields@.take(len as int) =~= fields@);
        },
        None => {},
    }
    out
}

/// The variable of a tier: a dictionary holding its `patron_count`.
pub open spec fn tier_variable(t: Tier2, v: Variable) -> bool {
    &&& v.kind is Dictionary
    &&& v.interpret_as == VariableInterpretAs::NonSpecific
    &&& v.kind->Dictionary_0@.len() == 1
    &&& v.kind->Dictionary_0@[0].0@ == "patron_count"@
    &&& v.kind->Dictionary_0@[0].1 == plain(VariableKind::UnsignedInteger(t.patron_count))
}

/// The variable of a campaign: a dictionary holding the list of its `tiers`.
pub open spec fn campaign_variable(c: Campaign2, v: Variable) -> bool {
    &&& v.kind is Dictionary
    &&& v.interpret_as == VariableInterpretAs::NonSpecific
    &&& v.kind->Dictionary_0@.len() == 1
    &&& v.kind->Dictionary_0@[0].0@ == "tiers"@
    &&& v.kind->Dictionary_0@[0].1.kind is List
    &&& v.kind->Dictionary_0@[0].1.interpret_as == VariableInterpretAs::NonSpecific
    &&& v.kind->Dictionary_0@[0].1.kind->List_0@.len() == c.tiers@.len()
    &&& forall|i: int|
        0 <= i < c.tiers@.len() ==> tier_variable(c.tiers@[i], #[trigger] v.kind->Dictionary_0@[0].1.kind->List_0@[i])
}

/// A dictionary of one entry.
fn single_entry(key: &str, value: Variable) -> (r: Variable)
    ensures
        r.kind is Dictionary,
        r.interpret_as == VariableInterpretAs::NonSpecific,
        r.kind->Dictionary_0@.len() == 1,
        r.kind->Dictionary_0@[0].0@ == key@,
        r.kind->Dictionary_0@[0].1 == value,
{
    let mut entries: Vec<(String, Variable)> = Vec::new();
    entries.push((String::from_str(key), value));
    let ghost e = entries@;
    let r = Variable::create_map(entries, None);
    proof {
        let empty = Seq::<(String, Variable)>::empty();
        assert(e.drop_last() =~= empty);
        assert(dict_from(empty) == empty);
        assert(crate::visual_scripting::variable::dict_index(empty, e.last().0@) is None);
        assert(empty.push((e.last().0, e.last().1)) =~= e);
        assert(dict_from(e) =~= e);
    }
    r
}

impl Campaign2 {
    /// The variable that a document reads this campaign as.
    pub fn into_variable(self) -> (r: Variable)
        ensures
            campaign_variable(self, r),
    {
        let len = self.tiers.len();
        let mut tiers: Vec<Variable> = Vec::new();
        let mut i: usize = 0;
        while i < len
            invariant
                i <= len,
                len == self.tiers@.len(),
                tiers@.len() == i,
                forall|j: int| 0 <= j < i ==> tier_variable(self.tiers@[j], #[trigger] tiers@[j]),
            decreases len - i,
        {
            let t = single_entry("patron_count", Variable::from(self.tiers[i].patron_count));
            tiers.push(t);
            i = i + 1;
        }
        single_entry("tiers", Variable::from(VariableKind::List(tiers)))
    }
}

impl From<Campaign2> for Variable {
    fn from(value: Campaign2) -> (r: Self) {
        value.into_variable()
    }
}

impl vstd::std_specs::convert::FromSpecImpl<Campaign2> for Variable {
    /// A campaign's variable holds vectors, which no spec function can
    /// build: `into_variable` states what `from` gives.
    open spec fn obeys_from_spec() -> bool {
        false
    }

    open spec fn from_spec(v: Campaign2) -> Self {
        choose|x: Variable| campaign_variable(v, x)
    }
}

/// What Patreon answers to a refresh of an OAuth grant.
#[derive(Debug)]
pub struct PatreonRefreshResult {
    expires_in: i64,
    token_type: String,
    access_token: String,
    refresh_token: String,
}

impl PatreonRefreshResult {
    /// Seconds until the new grant expires.
    pub closed spec fn lifetime(&self) -> i64 {
        self.expires_in
    }

    /// The new grant's token type, access token and refresh token.
    pub closed spec fn tokens(&self) -> (Seq<char>, Seq<char>, Seq<char>) {
        (self.token_type@, self.access_token@, self.refresh_token@)
    }

    /// The answer granting the given tokens for `expires_in` seconds.
    pub fn new(expires_in: i64, token_type: String, access_token: String, refresh_token: String) -> (r: Self)
        ensures
            r.lifetime() == expires_in,
            r.tokens() == (token_type@, access_token@, refresh_token@),
    {
        PatreonRefreshResult { expires_in, token_type, access_token, refresh_token }
    }

    /// Seconds until the new grant expires.
    pub fn expires_in(&self) -> (r: i64)
        ensures
            r == self.lifetime(),
    {
        self.expires_in
    }

    /// The new grant's token type, access token and refresh token.
    pub fn token_strings(&self) -> (r: (&str, &str, &str))
        ensures
            (r.0@, r.1@, r.2@) == self.tokens(),
    {
        (self.token_type.as_str(), self.access_token.as_str(), self.refresh_token.as_str())
    }
}

/// How a refresh of an OAuth grant went, by the HTTP status of the answer.
#[derive(Debug, Clone, Copy, PartialEq, Eq, Structural)]
pub enum RefreshStatus {
    /// A success status: the answer holds the new grant.
    Refreshed,
    /// `401 Unauthorized`: the grant was revoked, and nothing can be read with it.
    Unauthorized,
    /// Any other status: the refresh failed.
    Failed,
}

/// How a refresh went, by the HTTP status `status` of the answer.
pub fn refresh_status(status: u16) -> (r: RefreshStatus)
    ensures
        r == if 200 <= status < 300 {
            RefreshStatus::Refreshed
        } else if status == 401 {
            RefreshStatus::Unauthorized
        } else {
            RefreshStatus::Failed
        },
{
    if 200 <= status && status < 300 {
        RefreshStatus::Refreshed
    } else if status == 401 {
        RefreshStatus::Unauthorized
    } else {
        RefreshStatus::Failed
    }
}

impl OAuthAuthorisation {
    /// Whether the grant has expired at the time `now`, in seconds since the Unix epoch.
    pub fn needs_refresh(&self, now: i64) -> (r: bool)
        ensures
            r == (now > self.expires_at),
    {
        now > self.expires_at
    }

    /// Takes on the tokens of a refresh, the new grant expiring at `expires_at`.
    pub fn apply_refresh(&mut self, result: PatreonRefreshResult, expires_at: i64)
        ensures
            final(self).id == old(self).id,
            final(self).expires_at == expires_at,
            (final(self).token_type@, final(self).access_token@, final(self).refresh_token@) == result.tokens(),
    {
        self.expires_at = expires_at;
        self.token_type = result.token_type;
        self.access_token = result.access_token;
        self.refresh_token = result.refresh_token;
    }

    /// The `authorization` header that presents this grant: its token type, a space, its access token.
    pub fn authorization_header(&self) -> (r: String)
        ensures
            r@ == self.token_type@ + " "@ + self.access_token@,
    {
        let mut r = self.token_type.clone();
        r.append(" ");
        r.append(self.access_token.as_str());
        r
    }
}

/// What `url_escape::encode_component` makes of the text `s`.
pub uninterp spec fn component_encoded(s: Seq<char>) -> Seq<char>;

/// `url_escape::encode_component`: percent-encodes `s` for a URL
/// component, as JavaScript's `encodeURIComponent` does.
#[verifier::external_body]
fn encode_component(s: &str) -> (r: String)
    ensures
        r@ == component_encoded(s@),
{
    url_escape::encode_component(s).into_owned()
}

/// The query of a request to refresh the grant `refresh_token` of the
/// client `client_id`.
pub fn refresh_query(client_id: &str, client_secret: &str, refresh_token: &str) -> (r: String)
    ensures
        r@ == "client_id="@ + component_encoded(client_id@) + "&client_secret="@ + component_encoded(client_secret@)
            + "&grant_type=refresh_token&refresh_token="@ + component_encoded(refresh_token@),
{
    let mut r = String::from_str("client_id=");
    r.append(encode_component(client_id).as_str());
    r.append("&client_secret=");
    r.append(encode_component(client_secret).as_str());
    r.append("&grant_type=refresh_token&refresh_token=");
    r.append(encode_component(refresh_token).as_str());
    r
}

} // verus!
