//! The laws the gateway's semantics obey, stated over the transition
//! functions that the store facade's contracts use.

use vstd::prelude::*;

use crate::error::{http_status_spec, rpc_code_spec, ErrorSpec, RpcCode};
use crate::keyspace::physical_key_spec;
use crate::store::{spec_delete, spec_get, spec_set};

verus! {

/// The namespacing scheme is injective for delimiter-free credentials: two
/// physical keys agree only when both the credential and the logical key
/// do. The delimiter-freedom matters: a credential containing the delimiter
/// can collide with another credential's namespace boundary (the physical
/// key of `a:b` under `k` is also the physical key of `a` under `b:k`),
/// which is left unresolved by the scheme itself.
pub proof fn lemma_physical_key_injective(
    c1: Seq<char>,
    k1: Seq<char>,
    c2: Seq<char>,
    k2: Seq<char>,
)
    requires
        !c1.contains(':'),
        !c2.contains(':'),
        physical_key_spec(c1, k1) == physical_key_spec(c2, k2),
    ensures
        c1 == c2,
        k1 == k2,
{
    let p1 = physical_key_spec(c1, k1);
    let p2 = physical_key_spec(c2, k2);
    if c1.len() < c2.len() {
        assert(p1[c1.len() as int] == ':');
        assert(p2[c1.len() as int] == c2[c1.len() as int]);
        assert(c2.contains(':'));
    } else if c2.len() < c1.len() {
        assert(p2[c2.len() as int] == ':');
        assert(p1[c2.len() as int] == c1[c2.len() as int]);
        assert(c1.contains(':'));
    } else {
        assert forall|i: int| 0 <= i < c1.len() implies c1[i] == c2[i] by {
            assert(p1[i] == c1[i]);
            assert(p2[i] == c2[i]);
        }
        assert(c1 =~= c2);
        assert(p1.len() == c1.len() + 1 + k1.len());
        assert(p2.len() == c2.len() + 1 + k2.len());
        assert(k1.len() == k2.len());
        assert forall|i: int| 0 <= i < k1.len() implies k1[i] == k2[i] by {
            assert(p1[c1.len() + 1 + i] == k1[i]);
            assert(p2[c2.len() + 1 + i] == k2[i]);
        }
        assert(k1 =~= k2);
    }
}

/// Namespace isolation: for distinct credentials, a write through one never
/// changes what a read of the same logical key through the other observes —
/// the second caller never sees the first caller's value, whatever was
/// written and whenever either clock is read. For one and the same logical
/// key this needs no delimiter assumption: the two physical keys differ in
/// length or in their credential prefix.
pub proof fn lemma_namespace_isolation(
    m: Map<Seq<char>, (Seq<char>, Option<u64>)>,
    write_now: u64,
    read_now: u64,
    c1: Seq<char>,
    c2: Seq<char>,
    key: Seq<char>,
    value: Seq<char>,
    ttl: Option<u64>,
)
    requires
        c1 != c2,
    ensures
        spec_get(spec_set(m, write_now, c1, key, value, ttl), read_now, c2, key) == spec_get(
            m,
            read_now,
            c2,
            key,
        ),
{
    if physical_key_spec(c1, key) == physical_key_spec(c2, key) {
        let p1 = physical_key_spec(c1, key);
        let p2 = physical_key_spec(c2, key);
        assert(p1.len() == c1.len() + 1 + key.len());
        assert(p2.len() == c2.len() + 1 + key.len());
        assert forall|i: int| 0 <= i < c1.len() implies c1[i] == c2[i] by {
            assert(p1[i] == c1[i]);
            assert(p2[i] == c2[i]);
        }
        assert(c1 =~= c2);
    }
}

/// Round trip: a write without a TTL followed by a read through the same
/// credential and logical key observes the written value.
pub proof fn lemma_round_trip(
    m: Map<Seq<char>, (Seq<char>, Option<u64>)>,
    now: u64,
    c: Seq<char>,
    key: Seq<char>,
    value: Seq<char>,
)
    ensures
        spec_get(spec_set(m, now, c, key, value, None), now, c, key) == Some(value),
{
}

/// Delete is idempotent: deleting a key twice leaves what deleting it once
/// leaves — and the facade's delete reports success either time, as its
/// contract states.
pub proof fn lemma_delete_idempotent(
    m: Map<Seq<char>, (Seq<char>, Option<u64>)>,
    c: Seq<char>,
    key: Seq<char>,
)
    ensures
        spec_delete(spec_delete(m, c, key), c, key) == spec_delete(m, c, key),
{
    assert(spec_delete(spec_delete(m, c, key), c, key) =~= spec_delete(m, c, key));
}

/// TTL: a write with a positive TTL is observable by an immediate read and
/// by any read before the TTL lapses, and unobservable by any read at or
/// beyond the lapse.
pub proof fn lemma_ttl_expiry(
    m: Map<Seq<char>, (Seq<char>, Option<u64>)>,
    now: u64,
    later: u64,
    c: Seq<char>,
    key: Seq<char>,
    value: Seq<char>,
    ttl: u64,
)
    requires
        1 <= ttl,
        now + ttl <= u64::MAX,
    ensures
        spec_get(spec_set(m, now, c, key, value, Some(ttl)), now, c, key) == Some(value),
        later < now + ttl ==> spec_get(spec_set(m, now, c, key, value, Some(ttl)), later, c, key)
            == Some(value),
        later >= now + ttl ==> spec_get(
            spec_set(m, now, c, key, value, Some(ttl)),
            later,
            c,
            key,
        ) is None,
{
}

/// Set is idempotent: writing the same value with the same TTL at the same
/// time twice leaves what writing it once leaves.
pub proof fn lemma_set_idempotent(
    m: Map<Seq<char>, (Seq<char>, Option<u64>)>,
    now: u64,
    c: Seq<char>,
    key: Seq<char>,
    value: Seq<char>,
    ttl: Option<u64>,
)
    ensures
        spec_set(spec_set(m, now, c, key, value, ttl), now, c, key, value, ttl) == spec_set(
            m,
            now,
            c,
            key,
            value,
            ttl,
        ),
{
    assert(spec_set(spec_set(m, now, c, key, value, ttl), now, c, key, value, ttl) =~= spec_set(
        m,
        now,
        c,
        key,
        value,
        ttl,
    ));
}

/// The two wire projections agree on classification: an error kind maps to
/// an HTTP status and an RPC code that stand for the same class of failure,
/// whatever the wire shapes around them.
pub proof fn lemma_projections_agree(e: ErrorSpec)
    ensures
        (http_status_spec(e) == 401) <==> (rpc_code_spec(e) == RpcCode::Unauthenticated),
        (http_status_spec(e) == 404) <==> (rpc_code_spec(e) == RpcCode::NotFound),
        (http_status_spec(e) == 400) <==> (rpc_code_spec(e) == RpcCode::InvalidArgument),
        (http_status_spec(e) == 500) <==> (rpc_code_spec(e) == RpcCode::Internal),
{
}

/// An unauthorized rejection projects to HTTP status 401, whatever its
/// message — the status the protected routes answer ahead of any facade
/// operation.
pub proof fn lemma_unauthorized_status(e: ErrorSpec)
    requires
        e matches ErrorSpec::Unauthorized(_),
    ensures
        http_status_spec(e) == 401,
{
}

} // verus!
