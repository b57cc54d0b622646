//! The store facade: the five namespaced operations over the backend.
//!
//! The facade's semantics are verified against an in-memory model of the
//! backend: a table of physical keys with values and optional absolute
//! expiries, a set of registered credentials, and an explicit clock that
//! stands for the backend's expiry enforcement. The facade translates
//! `(credential, logical key)` into a namespaced physical key and performs
//! get, set, delete, list and the membership check on that table; the
//! contracts state each operation over the table's mathematical `Map` view,
//! and the transition functions below are what the library's laws quantify
//! over. A deployment drives the same pure translation functions
//! (`keyspace`, `auth`, the adapters) against the real backend.

use vstd::prelude::*;

use crate::error::{ErrorSpec, KVStoreError};
use crate::keyspace::{
    lemma_strip_all_distinct, lemma_strip_all_membership, physical_key, physical_key_spec,
    strip_namespace,
};
use crate::text::{str_eq, str_starts_with};

verus! {

/// One stored physical key with its value and optional absolute expiry.
struct Entry {
    key: String,
    value: String,
    expiry: Option<u64>,
}

/// Whether an entry with this expiry is still live at time `now`: entries
/// without an expiry never lapse, the others lapse once `now` reaches it.
pub open spec fn entry_live(expiry: Option<u64>, now: u64) -> bool {
    match expiry {
        None => true,
        Some(e) => now < e,
    }
}

/// `a + b`, clamped to the largest representable time.
pub open spec fn sat_add(a: u64, b: u64) -> u64 {
    if a + b > u64::MAX {
        u64::MAX
    } else {
        (a + b) as u64
    }
}

/// The absolute expiry a write at time `now` with this TTL produces.
pub open spec fn expiry_spec(now: u64, ttl: Option<u64>) -> Option<u64> {
    match ttl {
        None => None,
        Some(t) => Some(sat_add(now, t)),
    }
}

/// What a set does to the backend table: the physical key is bound to the
/// value, with the expiry the TTL produces — clearing any previous expiry
/// when the TTL is absent.
pub open spec fn spec_set(
    m: Map<Seq<char>, (Seq<char>, Option<u64>)>,
    now: u64,
    token: Seq<char>,
    key: Seq<char>,
    value: Seq<char>,
    ttl: Option<u64>,
) -> Map<Seq<char>, (Seq<char>, Option<u64>)> {
    m.insert(physical_key_spec(token, key), (value, expiry_spec(now, ttl)))
}

/// What a get observes in the backend table: the value under the physical
/// key if it is present and live, absence otherwise.
pub open spec fn spec_get(
    m: Map<Seq<char>, (Seq<char>, Option<u64>)>,
    now: u64,
    token: Seq<char>,
    key: Seq<char>,
) -> Option<Seq<char>> {
    let pk = physical_key_spec(token, key);
    if m.contains_key(pk) && entry_live(m[pk].1, now) {
        Some(m[pk].0)
    } else {
        None
    }
}

/// What a delete does to the backend table: the physical key is unbound,
/// whether or not it was bound.
pub open spec fn spec_delete(
    m: Map<Seq<char>, (Seq<char>, Option<u64>)>,
    token: Seq<char>,
    key: Seq<char>,
) -> Map<Seq<char>, (Seq<char>, Option<u64>)> {
    m.remove(physical_key_spec(token, key))
}

/// Whether a logical key belongs to the result of listing `token`'s
/// namespace under `prefix`: it is non-empty, extends the prefix, and its
/// physical key is live in the table.
pub open spec fn spec_list_member(
    m: Map<Seq<char>, (Seq<char>, Option<u64>)>,
    now: u64,
    token: Seq<char>,
    prefix: Seq<char>,
    key: Seq<char>,
) -> bool {
    &&& key.len() > 0
    &&& prefix.is_prefix_of(key)
    &&& m.contains_key(physical_key_spec(token, key))
    &&& entry_live(m[physical_key_spec(token, key)].1, now)
}

/// The TTL a write stores for a caller-supplied `ttl_seconds` the gateway
/// has accepted: a positive count of seconds, unchanged.
pub open spec fn spec_ttl(ttl: Option<i64>) -> Option<u64>
    recommends
        ttl matches Some(t) ==> t >= 1,
{
    match ttl {
        None => None,
        Some(t) => Some(t as u64),
    }
}

/// Checks a caller-supplied TTL before it reaches a write: a TTL is an
/// optional positive number of seconds, and anything else is rejected as an
/// invalid request.
pub fn validate_ttl(ttl: Option<i64>) -> (r: Result<Option<u64>, KVStoreError>)
    ensures
        ttl matches Some(t) && t < 1 ==> (r matches Err(e) && e@ == ErrorSpec::InvalidRequest(
            "ttl_seconds must be positive"@,
        )),
        (ttl matches Some(t) ==> t >= 1) ==> r == Result::<Option<u64>, KVStoreError>::Ok(
            spec_ttl(ttl),
        ),
{
    match ttl {
        None => Ok(None),
        Some(t) => {
            if t >= 1 {
                Ok(Some(t as u64))
            } else {
                Err(KVStoreError::InvalidRequest(String::from_str("ttl_seconds must be positive")))
            }
        },
    }
}

/// The `Map` view of a sequence of entries; later entries shadow earlier
/// ones, though a well-formed store never holds a key twice.
spec fn entries_map(s: Seq<Entry>) -> Map<Seq<char>, (Seq<char>, Option<u64>)>
    decreases s.len(),
{
    if s.len() == 0 {
        Map::empty()
    } else {
        entries_map(s.drop_last()).insert(s.last().key@, (s.last().value@, s.last().expiry))
    }
}

/// Pairwise-distinct physical keys.
spec fn entries_unique(s: Seq<Entry>) -> bool {
    forall|i: int, j: int| 0 <= i < j < s.len() ==> s[i].key@ != s[j].key@
}

proof fn lemma_entries_map_index(s: Seq<Entry>, i: int)
    requires
        entries_unique(s),
        0 <= i < s.len(),
    ensures
        entries_map(s).contains_key(s[i].key@),
        entries_map(s)[s[i].key@] == (s[i].value@, s[i].expiry),
    decreases s.len(),
{
    if i == s.len() - 1 {
    } else {
        lemma_entries_map_index(s.drop_last(), i);
        assert(s.drop_last()[i] == s[i]);
        assert(s.last().key@ != s[i].key@);
    }
}

proof fn lemma_entries_map_absent(s: Seq<Entry>, k: Seq<char>)
    requires
        forall|i: int| 0 <= i < s.len() ==> s[i].key@ != k,
    ensures
        !entries_map(s).contains_key(k),
    decreases s.len(),
{
    if s.len() > 0 {
        lemma_entries_map_absent(s.drop_last(), k);
    }
}

proof fn lemma_entries_map_domain(s: Seq<Entry>, k: Seq<char>)
    ensures
        entries_map(s).contains_key(k) <==> exists|i: int| 0 <= i < s.len() && s[i].key@ == k,
    decreases s.len(),
{
    if s.len() > 0 {
        lemma_entries_map_domain(s.drop_last(), k);
        if s.last().key@ == k {
            assert(s[s.len() - 1].key@ == k);
        } else {
            if exists|i: int| 0 <= i < s.len() - 1 && s.drop_last()[i].key@ == k {
                let i = choose|i: int| 0 <= i < s.len() - 1 && s.drop_last()[i].key@ == k;
                assert(s[i].key@ == k);
            }
            if exists|i: int| 0 <= i < s.len() && s[i].key@ == k {
                let i = choose|i: int| 0 <= i < s.len() && s[i].key@ == k;
                assert(s.drop_last()[i] == s[i]);
            }
        }
    }
}

proof fn lemma_entries_map_remove(s: Seq<Entry>, i: int)
    requires
        entries_unique(s),
        0 <= i < s.len(),
    ensures
        entries_map(s.remove(i)) =~= entries_map(s).remove(s[i].key@),
    decreases s.len(),
{
    if i == s.len() - 1 {
        assert(s.remove(i) =~= s.drop_last());
        assert forall|j: int| 0 <= j < s.drop_last().len() implies s.drop_last()[j].key@
            != s[i].key@ by {
            assert(s.drop_last()[j] == s[j]);
        }
        lemma_entries_map_absent(s.drop_last(), s[i].key@);
    } else {
        let t = s.remove(i);
        assert(t.drop_last() =~= s.drop_last().remove(i));
        assert(t.last() == s.last());
        lemma_entries_map_remove(s.drop_last(), i);
        assert(s.drop_last()[i] == s[i]);
        assert(s.last().key@ != s[i].key@);
    }
}

/// The store facade, verified against the in-memory backend model.
pub struct KVStore {
    entries: Vec<Entry>,
    tokens: Vec<String>,
    clock: u64,
}

impl KVStore {
    /// The backend table: each live-or-lapsed physical key with its value
    /// and optional expiry.
    pub closed spec fn contents(&self) -> Map<Seq<char>, (Seq<char>, Option<u64>)> {
        entries_map(self.entries@)
    }

    /// The registered credentials.
    pub closed spec fn tokens_set(&self) -> Set<Seq<char>> {
        Set::new(
            |t: Seq<char>| exists|i: int| 0 <= i < self.tokens@.len() && self.tokens@[i]@ == t,
        )
    }

    /// The model clock.
    pub closed spec fn now(&self) -> u64 {
        self.clock
    }

    /// Well-formedness: no physical key is held twice.
    pub closed spec fn wf(&self) -> bool {
        entries_unique(self.entries@)
    }

    /// A fresh store: empty table, no credentials, clock at zero.
    pub fn new() -> (r: Self)
        ensures
            r.wf(),
            r.contents() == Map::<Seq<char>, (Seq<char>, Option<u64>)>::empty(),
            r.tokens_set() == Set::<Seq<char>>::empty(),
            r.now() == 0,
    {
        let r = KVStore { entries: Vec::new(), tokens: Vec::new(), clock: 0 };
        proof {
            assert(r.tokens_set() =~= Set::<Seq<char>>::empty());
        }
        r
    }

    /// Registers a credential. Registration is an administrative act outside
    /// the gateway's own surface; the model needs it so that scenarios can
    /// be set up.
    pub fn register_token(&mut self, token: &str)
        ensures
            final(self).wf() == old(self).wf(),
            final(self).tokens_set() == old(self).tokens_set().insert(token@),
            final(self).contents() == old(self).contents(),
            final(self).now() == old(self).now(),
    {
        self.tokens.push(String::from_str(token));
        proof {
            assert forall|t: Seq<char>| final(self).tokens_set().contains(t) implies old(
                self,
            ).tokens_set().insert(token@).contains(t) by {
                let i = choose|i: int|
                    0 <= i < self.tokens@.len() && self.tokens@[i]@ == t;
                if i < self.tokens@.len() - 1 {
                    assert(old(self).tokens@[i]@ == t);
                }
            }
            assert forall|t: Seq<char>| old(self).tokens_set().insert(token@).contains(
                t,
            ) implies final(self).tokens_set().contains(t) by {
                if t == token@ {
                    assert(self.tokens@[self.tokens@.len() - 1]@ == t);
                } else {
                    let i = choose|i: int|
                        0 <= i < old(self).tokens@.len() && old(self).tokens@[i]@ == t;
                    assert(self.tokens@[i]@ == t);
                }
            }
            assert(final(self).tokens_set() =~= old(self).tokens_set().insert(token@));
        }
    }

    /// Moves the model clock forward, as waiting does with the backend's.
    pub fn advance_clock(&mut self, secs: u64)
        requires
            old(self).now() + secs <= u64::MAX,
        ensures
            final(self).wf() == old(self).wf(),
            final(self).now() == old(self).now() + secs,
            final(self).contents() == old(self).contents(),
            final(self).tokens_set() == old(self).tokens_set(),
    {
        self.clock = self.clock + secs;
    }

    /// The credential-membership check: true iff the credential is
    /// registered. Absence is a valid negative answer, not a failure; the
    /// model backend cannot fail, so the check always succeeds.
    pub fn validate_token(&self, token: &str) -> (r: Result<bool, KVStoreError>)
        ensures
            r == Result::<bool, KVStoreError>::Ok(self.tokens_set().contains(token@)),
    {
        let mut i: usize = 0;
        while i < self.tokens.len()
            invariant
                i <= self.tokens@.len(),
                forall|j: int| 0 <= j < i ==> self.tokens@[j]@ != token@,
            decreases self.tokens@.len() - i,
        {
            if str_eq(self.tokens[i].as_str(), token) {
                assert(self.tokens_set().contains(token@));
                return Ok(true);
            }
            i += 1;
        }
        assert(!self.tokens_set().contains(token@));
        Ok(false)
    }

    /// The index of the entry holding this physical key, if any.
    fn find_index(&self, pk: &str) -> (r: Option<usize>)
        requires
            self.wf(),
        ensures
            match r {
                Some(i) => i < self.entries@.len() && self.entries@[i as int].key@ == pk@,
                None => forall|i: int| 0 <= i < self.entries@.len() ==> self.entries@[i].key@
                    != pk@,
            },
    {
        let mut i: usize = 0;
        while i < self.entries.len()
            invariant
                i <= self.entries@.len(),
                forall|j: int| 0 <= j < i ==> self.entries@[j].key@ != pk@,
            decreases self.entries@.len() - i,
        {
            if str_eq(self.entries[i].key.as_str(), pk) {
                return Some(i);
            }
            i += 1;
        }
        None
    }

    /// Reads the logical key's value: the value stored under the physical
    /// key `token:key` when it is present and live, and `KeyNotFound` —
    /// distinct from any backend failure — otherwise.
    pub fn get(&self, token: &str, key: &str) -> (r: Result<String, KVStoreError>)
        requires
            self.wf(),
        ensures
            match spec_get(self.contents(), self.now(), token@, key@) {
                Some(v) => r matches Ok(s) && s@ == v,
                None => r matches Err(e) && e@ == ErrorSpec::KeyNotFound(key@),
            },
    {
        let pk = physical_key(token, key);
        match self.find_index(pk.as_str()) {
            Some(i) => {
                proof {
                    lemma_entries_map_index(self.entries@, i as int);
                }
                let live = match self.entries[i].expiry {
                    None => true,
                    Some(e) => self.clock < e,
                };
                if live {
                    Ok(self.entries[i].value.clone())
                } else {
                    Err(KVStoreError::KeyNotFound(String::from_str(key)))
                }
            },
            None => {
                proof {
                    lemma_entries_map_absent(self.entries@, pk@);
                }
                Err(KVStoreError::KeyNotFound(String::from_str(key)))
            },
        }
    }

    /// The physical keys that are live and extend the enumeration pattern's
    /// literal part, each at most once: the model of the backend's
    /// pattern scan, whose enumeration order is unspecified.
    fn matching_keys(&self, pat: &str) -> (r: Vec<String>)
        requires
            self.wf(),
        ensures
            forall|pk: Seq<char>|
                #![trigger r.deep_view().contains(pk)]
                r.deep_view().contains(pk) <==> (self.contents().contains_key(pk) && entry_live(
                    self.contents()[pk].1,
                    self.now(),
                ) && pat@.is_prefix_of(pk)),
            forall|a: int, b: int| 0 <= a < b < r@.len() ==> r@[a]@ != r@[b]@,
    {
        let mut out: Vec<String> = Vec::new();
        let mut i: usize = 0;
        while i < self.entries.len()
            invariant
                self.wf(),
                i <= self.entries@.len(),
                forall|pk: Seq<char>|
                    #![trigger out.deep_view().contains(pk)]
                    out.deep_view().contains(pk) <==> exists|j: int|
                        0 <= j < i && self.entries@[j].key@ == pk && entry_live(
                            self.entries@[j].expiry,
                            self.clock,
                        ) && pat@.is_prefix_of(pk),
                forall|a: int, b: int| 0 <= a < b < out@.len() ==> out@[a]@ != out@[b]@,
                forall|a: int|
                    0 <= a < out@.len() ==> exists|j: int|
                        0 <= j < i && #[trigger] out@[a]@ == self.entries@[j].key@,
            decreases self.entries@.len() - i,
        {
            let e = &self.entries[i];
            let live = match e.expiry {
                None => true,
                Some(x) => self.clock < x,
            };
            let ghost prev = out.deep_view();
            if live && str_starts_with(e.key.as_str(), pat) {
                out.push(e.key.clone());
                proof {
                    assert(out.deep_view() =~= prev.push(self.entries@[i as int].key@));
                    assert forall|pk: Seq<char>|
                        #![trigger out.deep_view().contains(pk)]
                        out.deep_view().contains(pk) implies exists|j: int|
                        0 <= j < i + 1 && self.entries@[j].key@ == pk && entry_live(
                            self.entries@[j].expiry,
                            self.clock,
                        ) && pat@.is_prefix_of(pk) by {
                        let a = choose|a: int|
                            0 <= a < out.deep_view().len() && out.deep_view()[a] == pk;
                        if a < prev.len() {
                            assert(prev.contains(pk));
                        } else {
                            assert(self.entries@[i as int].key@ == pk);
                        }
                    }
                    assert forall|pk: Seq<char>|
                        exists|j: int|
                            0 <= j < i + 1 && self.entries@[j].key@ == pk && entry_live(
                                self.entries@[j].expiry,
                                self.clock,
                            ) && pat@.is_prefix_of(pk) implies #[trigger] out.deep_view().contains(
                        pk,
                    ) by {
                        let j = choose|j: int|
                            0 <= j < i + 1 && self.entries@[j].key@ == pk && entry_live(
                                self.entries@[j].expiry,
                                self.clock,
                            ) && pat@.is_prefix_of(pk);
                        if j < i {
                            assert(prev.contains(pk));
                            let a = choose|a: int| 0 <= a < prev.len() && prev[a] == pk;
                            assert(out.deep_view()[a] == pk);
                        } else {
                            assert(out.deep_view().last() == pk);
                        }
                    }
                    assert forall|a: int, b: int| 0 <= a < b < out@.len() implies out@[a]@
                        != out@[b]@ by {
                        if b == out@.len() - 1 {
                            let j = choose|j: int|
                                0 <= j < i && #[trigger] out@[a]@ == self.entries@[j].key@;
                            assert(self.entries@[j].key@ != self.entries@[i as int].key@);
                        }
                    }
                }
            } else {
                proof {
                    assert forall|pk: Seq<char>|
                        exists|j: int|
                            0 <= j < i + 1 && self.entries@[j].key@ == pk && entry_live(
                                self.entries@[j].expiry,
                                self.clock,
                            ) && pat@.is_prefix_of(pk) implies #[trigger] out.deep_view().contains(
                        pk,
                    ) by {
                        let j = choose|j: int|
                            0 <= j < i + 1 && self.entries@[j].key@ == pk && entry_live(
                                self.entries@[j].expiry,
                                self.clock,
                            ) && pat@.is_prefix_of(pk);
                        assert(j < i);
                    }
                }
            }
            i += 1;
        }
        proof {
            assert forall|pk: Seq<char>|
                #![trigger out.deep_view().contains(pk)]
                out.deep_view().contains(pk) implies (self.contents().contains_key(pk)
                && entry_live(self.contents()[pk].1, self.now()) && pat@.is_prefix_of(pk)) by {
                let j = choose|j: int|
                    0 <= j < self.entries@.len() && self.entries@[j].key@ == pk && entry_live(
                        self.entries@[j].expiry,
                        self.clock,
                    ) && pat@.is_prefix_of(pk);
                lemma_entries_map_index(self.entries@, j);
            }
            assert forall|pk: Seq<char>|
                self.contents().contains_key(pk) && entry_live(self.contents()[pk].1, self.now())
                && pat@.is_prefix_of(pk) implies #[trigger] out.deep_view().contains(pk) by {
                lemma_entries_map_domain(self.entries@, pk);
                let j = choose|j: int|
                    0 <= j < self.entries@.len() && self.entries@[j].key@ == pk;
                lemma_entries_map_index(self.entries@, j);
            }
        }
        out
    }

    /// Lists the logical keys of the credential's namespace that extend the
    /// prefix: the backend enumerates `token:prefix*`, and the namespace
    /// prefix is stripped from each enumerated key, dropping any key not
    /// longer than `token:` itself. The result holds each such logical key
    /// exactly once; its order is the backend's enumeration order, which is
    /// unspecified.
    pub fn list(&self, token: &str, prefix: &str) -> (r: Result<Vec<String>, KVStoreError>)
        requires
            self.wf(),
            token@.len() < usize::MAX,
        ensures
            r matches Ok(keys) && {
                &&& forall|k: Seq<char>|
                    #![trigger keys.deep_view().contains(k)]
                    keys.deep_view().contains(k) <==> spec_list_member(
                        self.contents(),
                        self.now(),
                        token@,
                        prefix@,
                        k,
                    )
                &&& forall|a: int, b: int| 0 <= a < b < keys@.len() ==> keys@[a]@ != keys@[b]@
            },
    {
        let pat = physical_key(token, prefix);
        let raw = self.matching_keys(pat.as_str());
        let keys = strip_namespace(token, raw);
        proof {
            let t = token@;
            let p = prefix@;
            let n = t.len() + 1;
            let rdv = keys.deep_view();
            let sdv = raw.deep_view();
            assert(pat@ == t + seq![':'] + p);
            assert forall|i: int| 0 <= i < sdv.len() implies pat@.is_prefix_of(#[trigger] sdv[i])
                && sdv[i].take(n as int) == t + seq![':'] by {
                assert(sdv.contains(sdv[i]));
                assert(sdv[i].take(pat@.len() as int) == pat@);
                assert(sdv[i].take(n as int) =~= pat@.take(n as int));
                assert(pat@.take(n as int) =~= t + seq![':']);
            }
            assert forall|k: Seq<char>|
                #![trigger rdv.contains(k)]
                rdv.contains(k) implies spec_list_member(
                self.contents(),
                self.now(),
                t,
                p,
                k,
            ) by {
                lemma_strip_all_membership(n, sdv, k);
                let i = choose|i: int|
                    0 <= i < sdv.len() && sdv[i].len() > n && sdv[i].skip(n as int) == k;
                let pk = sdv[i];
                assert(sdv.contains(pk));
                assert(pk =~= pk.take(n as int) + pk.skip(n as int));
                assert(pk =~= t + seq![':'] + k);
                assert(p.is_prefix_of(k)) by {
                    assert(pk.take(pat@.len() as int) == pat@);
                    assert(k.take(p.len() as int) =~= pat@.skip(n as int));
                    assert(pat@.skip(n as int) =~= p);
                }
                assert(physical_key_spec(t, k) == pk);
            }
            assert forall|k: Seq<char>|
                spec_list_member(self.contents(), self.now(), t, p, k) implies #[trigger] rdv.contains(k) by {
                let pk = physical_key_spec(t, k);
                assert(pat@.is_prefix_of(pk)) by {
                    assert(p.is_prefix_of(k));
                    assert(k.take(p.len() as int) == p);
                    assert(pk.take(pat@.len() as int) =~= pat@);
                }
                assert(sdv.contains(pk));
                let i = choose|i: int| 0 <= i < sdv.len() && sdv[i] == pk;
                assert(sdv[i].len() > n);
                assert(sdv[i].skip(n as int) =~= k);
                lemma_strip_all_membership(n, sdv, k);
            }
            assert forall|i: int, j: int| 0 <= i < j < sdv.len() implies sdv[i] != sdv[j] by {
                assert(raw@[i]@ != raw@[j]@);
            }
            lemma_strip_all_distinct(n, sdv);
            assert forall|a: int, b: int| 0 <= a < b < keys@.len() implies keys@[a]@
                != keys@[b]@ by {
                assert(rdv[a] == keys@[a]@);
                assert(rdv[b] == keys@[b]@);
                assert(rdv[a] != rdv[b]);
            }
        }
        Ok(keys)
    }

    /// Binds the logical key to the value: with a TTL, the physical key
    /// lapses once the clock reaches `now + ttl`; without one, the key
    /// never lapses, clearing any expiry a previous write left on it.
    /// Repeated calls with the same arguments converge to the same binding.
    pub fn set(&mut self, token: &str, key: &str, value: &str, ttl_seconds: Option<u64>) -> (r:
        Result<(), KVStoreError>)
        requires
            old(self).wf(),
            ttl_seconds matches Some(t) ==> t >= 1,
        ensures
            r is Ok,
            final(self).wf(),
            final(self).contents() == spec_set(
                old(self).contents(),
                old(self).now(),
                token@,
                key@,
                value@,
                ttl_seconds,
            ),
            final(self).tokens_set() == old(self).tokens_set(),
            final(self).now() == old(self).now(),
    {
        let pk = physical_key(token, key);
        let expiry: Option<u64> = match ttl_seconds {
            None => None,
            Some(t) => Some(
                match self.clock.checked_add(t) {
                    Some(e) => e,
                    None => u64::MAX,
                },
            ),
        };
        let ghost pre = self.entries@;
        match self.find_index(pk.as_str()) {
            Some(i) => {
                self.entries.remove(i);
                proof {
                    lemma_entries_map_remove(pre, i as int);
                    assert forall|a: int, b: int|
                        0 <= a < b < self.entries@.len() implies self.entries@[a].key@
                        != self.entries@[b].key@ by {
                        pre.remove_ensures(i as int);
                    }
                    assert forall|j: int| 0 <= j < self.entries@.len() implies self.entries@[j].key@
                        != pk@ by {
                        pre.remove_ensures(i as int);
                    }
                }
            },
            None => {},
        }
        let ghost mid = self.entries@;
        self.entries.push(Entry { key: pk, value: String::from_str(value), expiry });
        proof {
            assert(self.entries@.drop_last() =~= mid);
            assert(expiry == expiry_spec(old(self).now(), ttl_seconds));
            assert(final(self).contents() =~= spec_set(
                old(self).contents(),
                old(self).now(),
                token@,
                key@,
                value@,
                ttl_seconds,
            ));
        }
        Ok(())
    }

    /// Unbinds the logical key's physical key. Deletion is idempotent: it
    /// succeeds whether or not the key was bound, and never reports
    /// `KeyNotFound`.
    pub fn delete(&mut self, token: &str, key: &str) -> (r: Result<(), KVStoreError>)
        requires
            old(self).wf(),
        ensures
            r is Ok,
            final(self).wf(),
            final(self).contents() == spec_delete(old(self).contents(), token@, key@),
            final(self).tokens_set() == old(self).tokens_set(),
            final(self).now() == old(self).now(),
    {
        let pk = physical_key(token, key);
        let ghost pre = self.entries@;
        match self.find_index(pk.as_str()) {
            Some(i) => {
                self.entries.remove(i);
                proof {
                    lemma_entries_map_remove(pre, i as int);
                    assert forall|a: int, b: int|
                        0 <= a < b < self.entries@.len() implies self.entries@[a].key@
                        != self.entries@[b].key@ by {
                        pre.remove_ensures(i as int);
                    }
                }
            },
            None => {
                proof {
                    lemma_entries_map_absent(pre, pk@);
                    assert(final(self).contents() =~= spec_delete(
                        old(self).contents(),
                        token@,
                        key@,
                    ));
                }
            },
        }
        Ok(())
    }

    /// The liveness probe's interpretation: the backend is healthy iff it
    /// answered the probe with the expected acknowledgment.
    pub fn interpret_ping(reply: &str) -> (r: bool)
        ensures
            r == (reply@ == "PONG"@),
    {
        str_eq(reply, "PONG")
    }

    /// The liveness probe. The model backend always round-trips it.
    pub fn health_check(&self) -> (r: Result<bool, KVStoreError>)
        ensures
            r == Result::<bool, KVStoreError>::Ok(true),
    {
        let reply = "PONG";
        Ok(Self::interpret_ping(reply))
    }
}

} // verus!
