//! A HAKUMI user with their connections, and which of those a server may see.
use vstd::prelude::*;
use crate::text;
use crate::model::connection::{Connection, ConnectionKind, same_kind};
use crate::model::hakuid::HakuId;

verus! {

/// A HAKUMI user and the accounts they connected.
#[derive(Debug)]
pub struct User {
    pub id: HakuId,
    pub connections: Vec<Connection>,
}

/// Some connection of `conns` is of the kind `kind` and the account `sub`.
pub open spec fn has_connection_spec(conns: Seq<Connection>, sub: Seq<char>, kind: ConnectionKind) -> bool {
    exists|i: int| 0 <= i < conns.len() && conns[i].kind == kind && conns[i].sub@ == sub
}

impl User {
    /// Whether the user connected the account `sub` of the kind `connection_kind`.
    pub fn has_connection(&self, sub: &str, connection_kind: ConnectionKind) -> (r: bool)
        ensures
            r == has_connection_spec(self.connections@, sub@, connection_kind),
    {
        let len = self.connections.len();
        let mut i: usize = 0;
        while i < len
            invariant
                i <= len,
                len == self.connections@.len(),
                forall|j: int|
                    0 <= j < i ==> !(self.connections@[j].kind == connection_kind && self.connections@[j].sub@ == sub@),
            decreases len - i,
        {
            let c = &self.connections[i];
            if same_kind(c.kind, connection_kind) && text::str_equal(c.sub.as_str(), sub) {
                return true;
            }
            i = i + 1;
        }
        false
    }
}

/// A connection that a user lets a server see, by id.
#[derive(Debug, Clone, Copy)]
pub struct ConnectionReference {
    pub id: HakuId,
}

/// What a user lets a server see.
#[derive(Debug)]
pub struct UserSettings {
    pub user_connections: Vec<ConnectionReference>,
}

/// Some reference of `refs` names the connection `id`.
pub open spec fn referenced(refs: Seq<ConnectionReference>, id: HakuId) -> bool {
    exists|i: int| 0 <= i < refs.len() && refs[i].id == id
}

/// The connections of `conns` that `refs` name, in the order of `conns`.
pub open spec fn visible(conns: Seq<Connection>, refs: Seq<ConnectionReference>) -> Seq<Connection>
    decreases conns.len(),
{
    if conns.len() == 0 {
        Seq::empty()
    } else {
        let rest = visible(conns.drop_last(), refs);
        if referenced(refs, conns.last().id) {
            rest.push(conns.last())
        } else {
            rest
        }
    }
}

impl UserSettings {
    /// Whether these settings name the connection `id`.
    pub fn references(&self, id: HakuId) -> (r: bool)
        ensures
            r == referenced(self.user_connections@, id),
    {
        let len = self.user_connections.len();
        let mut i: usize = 0;
        while i < len
            invariant
                i <= len,
                len == self.user_connections@.len(),
                forall|j: int| 0 <= j < i ==> self.user_connections@[j].id != id,
            decreases len - i,
        {
            if self.user_connections[i].id.value == id.value {
                return true;
            }
            i = i + 1;
        }
        false
    }

    /// The connections of `user` that these settings let the server see,
    /// in the user's order.
    pub fn server_connections<'a>(&self, user: &'a User) -> (r: Vec<&'a Connection>)
        ensures
            r@.len() == visible(user.connections@, self.user_connections@).len(),
            forall|i: int|
                0 <= i < r@.len() ==> *r@[i] == #[trigger] visible(user.connections@, self.user_connections@)[i],
    {
        let conns = &user.connections;
        let len = conns.len();
        let mut out: Vec<&'a Connection> = Vec::new();
        let mut i: usize = 0;
        while i < len
            invariant
                i <= len,
                len == conns@.len(),
                *conns == user.connections,
                out@.len() == visible(conns@.take(i as int), self.user_connections@).len(),
                forall|j: int|
                    0 <= j < out@.len() ==> *out@[j] == #[trigger] visible(
                        conns@.take(i as int),
                        self.user_connections@,
                    )[j],
            decreases len - i,
        {
            assert(conns@.take(i + 1).drop_last() =~= conns@.take(i as int));
            assert(conns@.take(i + 1).last() == conns@[i as int]);
            if self.references(conns[i].id) {
                out.push(&conns[i]);
            }
            i = i + 1;
        }
        assert(conns@.take(len as int) =~= conns@);
        out
    }
}

} // verus!
