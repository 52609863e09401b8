//! Following members from joining a server to finishing its onboarding.
use vstd::prelude::*;

verus! {

/// The members, as (server, user) pairs, other than `key`, in order.
pub open spec fn without(pending: Seq<(u64, u64)>, key: (u64, u64)) -> Seq<(u64, u64)>
    decreases pending.len(),
{
    if pending.len() == 0 {
        Seq::empty()
    } else {
        let rest = without(pending.drop_last(), key);
        if pending.last() == key {
            rest
        } else {
            rest.push(pending.last())
        }
    }
}

/// Takes the member `key` off the list of members still pending, telling
/// whether it was on it.
pub fn take_pending(pending: &mut Vec<(u64, u64)>, key: (u64, u64)) -> (r: bool)
    ensures
        r == old(pending)@.contains(key),
        final(pending)@ == without(old(pending)@, key),
{
    let ghost orig = pending@;
    let len = pending.len();
    let mut kept: Vec<(u64, u64)> = Vec::new();
    let mut found = false;
    let mut i: usize = 0;
    while i < len
        invariant
            i <= len,
            len == orig.len(),
            *pending == *old(pending),
            orig == old(pending)@,
            found == exists|j: int| 0 <= j < i && orig[j] == key,
            kept@ == without(orig.take(i as int), key),
        decreases len - i,
    {
        let item = pending[i];
        assert(orig.take(i + 1).drop_last() =~= orig.take(i as int));
        assert(orig.take(i + 1).last() == orig[i as int]);
        if item.0 == key.0 && item.1 == key.1 {
            found = true;
        } else {
            kept.push(item);
        }
        i = i + 1;
    }
    assert(orig.take(len as int) =~= orig);
    *pending = kept;
    found
}

/// Law: taking a member off the pending list leaves no entry of it, and
/// every other member pending as before.
pub proof fn lemma_without(pending: Seq<(u64, u64)>, key: (u64, u64))
    ensures
        !without(pending, key).contains(key),
        forall|x: (u64, u64)| x != key ==> (#[trigger] without(pending, key).contains(x) <==> pending.contains(x)),
    decreases pending.len(),
{
    if pending.len() > 0 {
        let rest = pending.drop_last();
        lemma_without(rest, key);
        let w0 = without(rest, key);
        let w = without(pending, key);
        if w.contains(key) {
            let l = choose|l: int| 0 <= l < w.len() && w[l] == key;
            if l < w0.len() {
                assert(w[l] == w0[l]);
            }
        }
        assert forall|x: (u64, u64)| x != key implies (#[trigger] w.contains(x) <==> pending.contains(x)) by {
            if w.contains(x) {
                let l = choose|l: int| 0 <= l < w.len() && w[l] == x;
                if l < w0.len() {
                    assert(w[l] == w0[l]);
                    assert(w0.contains(x));
                    assert(rest.contains(x));
                    let k = choose|k: int| 0 <= k < rest.len() && rest[k] == x;
                    assert(pending[k] == x);
                } else {
                    assert(pending[pending.len() - 1] == x);
                }
            }
            if pending.contains(x) {
                let k = choose|k: int| 0 <= k < pending.len() && pending[k] == x;
                if k < pending.len() - 1 {
                    assert(rest[k] == x);
                    assert(rest.contains(x));
                    assert(w0.contains(x));
                    let l = choose|l: int| 0 <= l < w0.len() && w0[l] == x;
                    if pending.last() != key {
                        assert(w[l] == x);
                    }
                } else {
                    assert(w[w.len() - 1] == x);
                }
            }
        }
    }
}

/// Whether a member whose pending state just cleared must first wait out
/// the server's verification: they have no roles, the server has no
/// onboarding, and its verification level is the highest.
pub fn awaits_verification(roles: &Vec<u64>, onboarding_enabled: bool, verification_high: bool) -> (r: bool)
    ensures
        r == (roles@.len() == 0 && !onboarding_enabled && verification_high),
{
    roles.len() == 0 && !onboarding_enabled && verification_high
}

/// Milliseconds a member waits out a server's verification before their
/// onboarding counts as done: ten seconds under ten minutes, the job that
/// checks running every ten seconds.
pub const VERIFICATION_WAIT: u64 = 590000;

/// A member waiting out a server's verification since `since`, in
/// milliseconds since the Unix epoch.
#[derive(Debug, Clone, Copy)]
pub struct PendingVerification {
    pub guild_id: u64,
    pub user_id: u64,
    pub since: u64,
}

/// The wait of `p` is over at the time `now`.
pub open spec fn wait_over(p: PendingVerification, now: u64) -> bool {
    now - p.since >= VERIFICATION_WAIT
}

/// The entries of `entries` whose wait is over at `now`, or is not, in order.
pub open spec fn split_waits(entries: Seq<PendingVerification>, now: u64, over: bool) -> Seq<PendingVerification>
    decreases entries.len(),
{
    if entries.len() == 0 {
        Seq::empty()
    } else {
        let rest = split_waits(entries.drop_last(), now, over);
        if wait_over(entries.last(), now) == over {
            rest.push(entries.last())
        } else {
            rest
        }
    }
}

/// Takes off the entries whose wait is over at the time `now`, in
/// milliseconds since the Unix epoch, and gives them back in order; `now`
/// is no earlier than any entry began.
pub fn take_finished(entries: &mut Vec<PendingVerification>, now: u64) -> (r: Vec<PendingVerification>)
    requires
        forall|i: int| 0 <= i < old(entries)@.len() ==> #[trigger] old(entries)@[i].since <= now,
    ensures
        r@ == split_waits(old(entries)@, now, true),
        final(entries)@ == split_waits(old(entries)@, now, false),
{
    let ghost orig = entries@;
    let len = entries.len();
    let mut kept: Vec<PendingVerification> = Vec::new();
    let mut done: Vec<PendingVerification> = Vec::new();
    let mut i: usize = 0;
    while i < len
        invariant
            i <= len,
            len == orig.len(),
            *entries == *old(entries),
            orig == old(entries)@,
            forall|j: int| 0 <= j < orig.len() ==> #[trigger] orig[j].since <= now,
            kept@ == split_waits(orig.take(i as int), now, false),
            done@ == split_waits(orig.take(i as int), now, true),
        decreases len - i,
    {
        let item = entries[i];
        assert(orig.take(i + 1).drop_last() =~= orig.take(i as int));
        assert(orig.take(i + 1).last() == orig[i as int]);
        if now - item.since >= VERIFICATION_WAIT {
            done.push(item);
        } else {
            kept.push(item);
        }
        i = i + 1;
    }
    assert(orig.take(len as int) =~= orig);
    *entries = kept;
    done
}

/// Law: the entries whose wait is over and those whose wait is not split
/// the entries: every entry is in one of the two, each in the right one.
pub proof fn lemma_split_waits(entries: Seq<PendingVerification>, now: u64)
    ensures
        split_waits(entries, now, true).len() + split_waits(entries, now, false).len() == entries.len(),
        forall|i: int|
            0 <= i < split_waits(entries, now, true).len() ==> wait_over(
                #[trigger] split_waits(entries, now, true)[i],
                now,
            ),
        forall|i: int|
            0 <= i < split_waits(entries, now, false).len() ==> !wait_over(
                #[trigger] split_waits(entries, now, false)[i],
                now,
            ),
        forall|x: PendingVerification|
            #[trigger] entries.contains(x) <==> (split_waits(entries, now, true).contains(x) || split_waits(
                entries,
                now,
                false,
            ).contains(x)),
    decreases entries.len(),
{
    if entries.len() > 0 {
        let rest = entries.drop_last();
        lemma_split_waits(rest, now);
        let a0 = split_waits(rest, now, true);
        let b0 = split_waits(rest, now, false);
        let a = split_waits(entries, now, true);
        let b = split_waits(entries, now, false);
        assert forall|i: int| 0 <= i < a.len() implies wait_over(#[trigger] a[i], now) by {
            if i < a0.len() {
                assert(a[i] == a0[i]);
            }
        }
        assert forall|i: int| 0 <= i < b.len() implies !wait_over(#[trigger] b[i], now) by {
            if i < b0.len() {
                assert(b[i] == b0[i]);
            }
        }
        assert forall|x: PendingVerification| #[trigger] entries.contains(x) <==> (a.contains(x) || b.contains(x)) by {
            if entries.contains(x) {
                let k = choose|k: int| 0 <= k < entries.len() && entries[k] == x;
                if k < entries.len() - 1 {
                    assert(rest[k] == x);
                    assert(rest.contains(x));
                    if a0.contains(x) {
                        let l = choose|l: int| 0 <= l < a0.len() && a0[l] == x;
                        assert(a[l] == x);
                    } else {
                        let l = choose|l: int| 0 <= l < b0.len() && b0[l] == x;
                        assert(b[l] == x);
                    }
                } else if wait_over(x, now) {
                    assert(a[a.len() - 1] == x);
                } else {
                    assert(b[b.len() - 1] == x);
                }
            }
            if a.contains(x) {
                let l = choose|l: int| 0 <= l < a.len() && a[l] == x;
                if l < a0.len() {
                    assert(a[l] == a0[l]);
                    assert(a0.contains(x));
                    assert(rest.contains(x) <==> (a0.contains(x) || b0.contains(x)));
                    let k = choose|k: int| 0 <= k < rest.len() && rest[k] == x;
                    assert(entries[k] == x);
                } else {
                    assert(entries[entries.len() - 1] == x);
                }
            }
            if b.contains(x) {
                let l = choose|l: int| 0 <= l < b.len() && b[l] == x;
                if l < b0.len() {
                    assert(b[l] == b0[l]);
                    assert(b0.contains(x));
                    assert(rest.contains(x) <==> (a0.contains(x) || b0.contains(x)));
                    let k = choose|k: int| 0 <= k < rest.len() && rest[k] == x;
                    assert(entries[k] == x);
                } else {
                    assert(entries[entries.len() - 1] == x);
                }
            }
        }
    }
}

} // verus!
