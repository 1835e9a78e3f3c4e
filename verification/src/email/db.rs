//! The peer keyring's rule: one public key per address, the newest wins.

use vstd::prelude::*;

verus! {

/// A stored public key and the Unix time (seconds) it was last updated.
#[derive(Debug, Clone, PartialEq, Eq)]
pub struct PeerKeyRecord {
    pub public_key: String,
    pub updated_at: i64,
}

/// The content of a record.
pub open spec fn record_view(r: PeerKeyRecord) -> (Seq<char>, int) {
    (r.public_key@, r.updated_at as int)
}

/// The record after an upsert of `(key, at)` onto `existing`: the key is
/// replaced only by a strictly newer one; the time becomes the larger one.
pub open spec fn upsert(existing: Option<(Seq<char>, int)>, key: Seq<char>, at: int) -> (Seq<char>, int) {
    match existing {
        None => (key, at),
        Some((old_key, old_at)) => (
            if at > old_at {
                key
            } else {
                old_key
            },
            if at > old_at {
                at
            } else {
                old_at
            },
        ),
    }
}

/// Upserts a peer's public key onto the stored record, if any.
pub fn upsert_peer_key(existing: Option<PeerKeyRecord>, public_key: String, updated_at: i64) -> (r: PeerKeyRecord)
    ensures
        record_view(r) == upsert(
            match existing {
                Some(e) => Some(record_view(e)),
                None => None,
            },
            public_key@,
            updated_at as int,
        ),
{
    match existing {
        None => PeerKeyRecord { public_key, updated_at },
        Some(e) => {
            if updated_at > e.updated_at {
                PeerKeyRecord { public_key, updated_at }
            } else {
                e
            }
        },
    }
}

/// Law: repeating an upsert changes nothing.
pub proof fn lemma_upsert_idempotent(existing: Option<(Seq<char>, int)>, key: Seq<char>, at: int)
    ensures
        upsert(Some(upsert(existing, key, at)), key, at) == upsert(existing, key, at),
{
}

/// Law: upserts with different times give the same record in either order,
/// the key with the latest time (among the stored one and both updates) winning.
pub proof fn lemma_upsert_order_independent(
    existing: Option<(Seq<char>, int)>,
    k1: Seq<char>,
    t1: int,
    k2: Seq<char>,
    t2: int,
)
    requires
        t1 != t2,
        existing matches Some((_, t0)) ==> t0 != t1 && t0 != t2,
    ensures
        upsert(Some(upsert(existing, k1, t1)), k2, t2) == upsert(Some(upsert(existing, k2, t2)), k1, t1),
{
}

/// Law: the stored time never decreases, and after an upsert it is at least
/// the upsert's time.
pub proof fn lemma_upsert_time_monotone(existing: Option<(Seq<char>, int)>, key: Seq<char>, at: int)
    ensures
        upsert(existing, key, at).1 >= at,
        existing matches Some((_, t0)) ==> upsert(existing, key, at).1 >= t0,
{
}

} // verus!
