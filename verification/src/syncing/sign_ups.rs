//! Members who asked to sync before they were set up: once they are, the
//! sync they asked for runs, and its answer goes to the interaction they
//! used.
use vstd::prelude::*;

verus! {

/// A member's pending sign-up: when, in which server, and the token of
/// the interaction to answer, `created_at` in milliseconds since the Unix epoch.
#[derive(Debug)]
pub struct SignUp {
    pub created_at: u64,
    pub guild_id: u64,
    pub interaction_token: String,
}

/// A sign-up as plain values.
pub open spec fn sign_up_view(s: SignUp) -> (u64, u64, Seq<char>) {
    (s.created_at, s.guild_id, s.interaction_token@)
}

/// The pending sign-ups, at most one per user.
pub struct SignUps {
    entries: Vec<(u64, SignUp)>,
}

/// The sign-up of `user_id` among `entries`, if any.
pub open spec fn sign_up_of(entries: Seq<(u64, SignUp)>, user_id: u64) -> Option<(u64, u64, Seq<char>)>
    decreases entries.len(),
{
    if entries.len() == 0 {
        None
    } else if entries.last().0 == user_id {
        Some(sign_up_view(entries.last().1))
    } else {
        sign_up_of(entries.drop_last(), user_id)
    }
}

/// No user has two entries.
pub open spec fn users_distinct(entries: Seq<(u64, SignUp)>) -> bool {
    forall|i: int, j: int| 0 <= i < j < entries.len() ==> #[trigger] entries[i].0 != #[trigger] entries[j].0
}

/// Where `user_id` stands among `entries`, if anywhere.
proof fn lemma_sign_up_of(entries: Seq<(u64, SignUp)>, user_id: u64)
    requires
        users_distinct(entries),
    ensures
        match sign_up_of(entries, user_id) {
            Some(v) => exists|i: int|
                0 <= i < entries.len() && entries[i].0 == user_id && #[trigger] sign_up_view(entries[i].1) == v,
            None => forall|i: int| 0 <= i < entries.len() ==> #[trigger] entries[i].0 != user_id,
        },
        forall|i: int|
            0 <= i < entries.len() && #[trigger] entries[i].0 == user_id ==> sign_up_of(entries, user_id) == Some(
                sign_up_view(entries[i].1),
            ),
    decreases entries.len(),
{
    if entries.len() > 0 {
        let rest = entries.drop_last();
        assert(users_distinct(rest)) by {
            assert forall|i: int, j: int| 0 <= i < j < rest.len() implies #[trigger] rest[i].0 != #[trigger] rest[j].0 by {
                assert(rest[i] == entries[i]);
                assert(rest[j] == entries[j]);
            }
        }
        lemma_sign_up_of(rest, user_id);
        assert forall|i: int| 0 <= i < entries.len() && #[trigger] entries[i].0 == user_id implies sign_up_of(
            entries,
            user_id,
        ) == Some(sign_up_view(entries[i].1)) by {
            if i < entries.len() - 1 {
                assert(rest[i] == entries[i]);
                assert(entries[i].0 != entries[entries.len() - 1].0);
            }
        }
        match sign_up_of(entries, user_id) {
            Some(v) => {
                if entries.last().0 == user_id {
                    assert(sign_up_view(entries[entries.len() - 1].1) == v);
                } else {
                    let i = choose|i: int|
                        0 <= i < rest.len() && rest[i].0 == user_id && #[trigger] sign_up_view(rest[i].1) == v;
                    assert(entries[i] == rest[i]);
                }
            },
            None => {
                assert forall|i: int| 0 <= i < entries.len() implies #[trigger] entries[i].0 != user_id by {
                    if i < entries.len() - 1 {
                        assert(rest[i] == entries[i]);
                    }
                }
            },
        }
    }
}

impl SignUps {
    /// The pending sign-ups.
    pub closed spec fn pending(&self) -> Seq<(u64, SignUp)> {
        self.entries@
    }

    /// The well-formedness of the registry: no user has two sign-ups.
    pub closed spec fn wf(&self) -> bool {
        users_distinct(self.entries@)
    }

    /// The sign-up of `user_id`, if any.
    pub open spec fn of(&self, user_id: u64) -> Option<(u64, u64, Seq<char>)> {
        sign_up_of(self.pending(), user_id)
    }

    /// No sign-ups.
    pub fn new() -> (r: SignUps)
        ensures
            r.wf(),
            forall|u: u64| r.of(u) is None,
    {
        SignUps { entries: Vec::new() }
    }

    /// Where the user's sign-up stands, if anywhere.
    fn position(&self, user_id: u64) -> (r: Option<usize>)
        requires
            self.wf(),
        ensures
            match r {
                Some(i) => i < self.entries@.len() && self.entries@[i as int].0 == user_id,
                None => forall|i: int| 0 <= i < self.entries@.len() ==> #[trigger] self.entries@[i].0 != user_id,
            },
    {
        let len = self.entries.len();
        let mut i: usize = 0;
        while i < len
            invariant
                i <= len,
                len == self.entries@.len(),
                forall|j: int| 0 <= j < i ==> #[trigger] self.entries@[j].0 != user_id,
            decreases len - i,
        {
            if self.entries[i].0 == user_id {
                return Some(i);
            }
            i = i + 1;
        }
        None
    }

    /// Records that `user_id` asked to sync in `guild_id` at `now`, with the
    /// interaction `interaction_token`, replacing an earlier sign-up of theirs.
    pub fn create_sign_up(&mut self, user_id: u64, guild_id: u64, interaction_token: String, now: u64)
        requires
            old(self).wf(),
        ensures
            final(self).wf(),
            final(self).of(user_id) == Some((now, guild_id, interaction_token@)),
            forall|u: u64| u != user_id ==> #[trigger] final(self).of(u) == old(self).of(u),
    {
        let ghost before = self.entries@;
        proof {
            lemma_sign_up_of(before, user_id);
        }
        let sign_up = SignUp { created_at: now, guild_id, interaction_token };
        match self.position(user_id) {
            Some(i) => {
                self.entries.set(i, (user_id, sign_up));
            },
            None => {
                self.entries.push((user_id, sign_up));
            },
        }
        let ghost after = self.entries@;
        assert(users_distinct(after)) by {
            assert forall|a: int, b: int| 0 <= a < b < after.len() implies #[trigger] after[a].0 != #[trigger] after[b].0 by {
                if b < before.len() {
                    if a != b {
                        assert(after[a].0 == before[a].0);
                        assert(after[b].0 == before[b].0);
                    }
                } else {
                    assert(after[a] == before[a]);
                }
            }
        }
        proof {
            lemma_sign_up_of(after, user_id);
            lemma_sign_up_of(before, user_id);
            let k: int = if exists|i: int| 0 <= i < before.len() && before[i].0 == user_id {
                choose|i: int| 0 <= i < before.len() && before[i].0 == user_id
            } else {
                before.len() as int
            };
            assert(after[k].0 == user_id);
            assert forall|u: u64| u != user_id implies #[trigger] sign_up_of(after, u) == sign_up_of(before, u) by {
                lemma_sign_up_of(after, u);
                lemma_sign_up_of(before, u);
                match sign_up_of(before, u) {
                    Some(v) => {
                        let i = choose|i: int|
                            0 <= i < before.len() && before[i].0 == u && #[trigger] sign_up_view(before[i].1) == v;
                        assert(after[i] == before[i]);
                    },
                    None => {
                        assert forall|i: int| 0 <= i < after.len() implies #[trigger] after[i].0 != u by {
                            if i < before.len() && i != k {
                                assert(after[i] == before[i]);
                            }
                        }
                    },
                }
            }
        }
    }

    /// Takes off the sign-up of `user_id`, giving it back if there was one.
    pub fn take(&mut self, user_id: u64) -> (r: Option<SignUp>)
        requires
            old(self).wf(),
        ensures
            final(self).wf(),
            match r {
                Some(s) => old(self).of(user_id) == Some(sign_up_view(s)),
                None => old(self).of(user_id) is None,
            },
            final(self).of(user_id) is None,
            forall|u: u64| u != user_id ==> #[trigger] final(self).of(u) == old(self).of(u),
    {
        let ghost before = self.entries@;
        proof {
            lemma_sign_up_of(before, user_id);
        }
        match self.position(user_id) {
            Some(i) => {
                let (_, sign_up) = self.entries.remove(i);
                let ghost after = self.entries@;
                assert(after == before.remove(i as int));
                assert(users_distinct(after)) by {
                    assert forall|a: int, b: int| 0 <= a < b < after.len() implies #[trigger] after[a].0
                        != #[trigger] after[b].0 by {
                        let a2 = if a < i { a } else { a + 1 };
                        let b2 = if b < i { b } else { b + 1 };
                        assert(after[a] == before[a2]);
                        assert(after[b] == before[b2]);
                    }
                }
                proof {
                    lemma_sign_up_of(after, user_id);
                    assert forall|j: int| 0 <= j < after.len() implies #[trigger] after[j].0 != user_id by {
                        let j2 = if j < i { j } else { j + 1 };
                        assert(after[j] == before[j2]);
                    }
                    assert forall|u: u64| u != user_id implies #[trigger] sign_up_of(after, u) == sign_up_of(before, u) by {
                        lemma_sign_up_of(after, u);
                        lemma_sign_up_of(before, u);
                        match sign_up_of(before, u) {
                            Some(v) => {
                                let j = choose|j: int|
                                    0 <= j < before.len() && before[j].0 == u && #[trigger] sign_up_view(before[j].1) == v;
                                let j1 = if j < i { j } else { j - 1 };
                                assert(after[j1] == before[j]);
                            },
                            None => {
                                assert forall|j: int| 0 <= j < after.len() implies #[trigger] after[j].0 != u by {
                                    let j2 = if j < i { j } else { j + 1 };
                                    assert(after[j] == before[j2]);
                                }
                            },
                        }
                    }
                }
                Some(sign_up)
            },
            None => None,
        }
    }
}

} // verus!
