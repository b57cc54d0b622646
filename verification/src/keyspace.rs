//! The namespacing scheme: a caller's logical key is stored under the
//! physical key `credential:key`, and listing strips that prefix again.

use vstd::prelude::*;

use crate::text::str_skip;

verus! {

/// The physical key for a credential and a logical key: the two joined by
/// the fixed delimiter.
pub open spec fn physical_key_spec(token: Seq<char>, key: Seq<char>) -> Seq<char> {
    token + seq![':'] + key
}

/// The enumeration pattern for a credential and a logical-key prefix:
/// `credential:prefix*`.
pub open spec fn list_pattern_spec(token: Seq<char>, prefix: Seq<char>) -> Seq<char> {
    physical_key_spec(token, prefix).push('*')
}

/// What stripping the namespace from a sequence of enumerated physical keys
/// yields: each key longer than `n` characters loses its first `n`; shorter
/// or equal ones are dropped as malformed.
pub open spec fn strip_all(n: nat, keys: Seq<Seq<char>>) -> Seq<Seq<char>>
    decreases keys.len(),
{
    if keys.len() == 0 {
        Seq::empty()
    } else {
        strip_all(n, keys.drop_last()) + if keys.last().len() > n {
            seq![keys.last().skip(n as int)]
        } else {
            Seq::empty()
        }
    }
}

/// A logical key comes out of the stripping exactly when some enumerated
/// physical key longer than `n` ends in it.
pub(crate) proof fn lemma_strip_all_membership(n: nat, keys: Seq<Seq<char>>, k: Seq<char>)
    ensures
        strip_all(n, keys).contains(k) <==> exists|i: int|
            0 <= i < keys.len() && keys[i].len() > n && keys[i].skip(n as int) == k,
    decreases keys.len(),
{
    if keys.len() > 0 {
        lemma_strip_all_membership(n, keys.drop_last(), k);
        let prev = strip_all(n, keys.drop_last());
        let whole = strip_all(n, keys);
        if keys.last().len() > n {
            assert(whole == prev + seq![keys.last().skip(n as int)]);
            assert(whole.last() == keys.last().skip(n as int));
        } else {
            assert(whole =~= prev);
        }
        if exists|i: int| 0 <= i < keys.len() && keys[i].len() > n && keys[i].skip(n as int)
            == k {
            let i = choose|i: int|
                0 <= i < keys.len() && keys[i].len() > n && keys[i].skip(n as int) == k;
            if i < keys.len() - 1 {
                assert(keys.drop_last()[i] == keys[i]);
                let a = choose|a: int| 0 <= a < prev.len() && prev[a] == k;
                assert(whole[a] == k);
            } else {
                assert(whole.last() == k);
            }
        }
        if whole.contains(k) {
            let a = choose|a: int| 0 <= a < whole.len() && whole[a] == k;
            if a < prev.len() {
                assert(prev[a] == k);
                let i = choose|i: int|
                    0 <= i < keys.drop_last().len() && keys.drop_last()[i].len() > n
                        && keys.drop_last()[i].skip(n as int) == k;
                assert(keys[i] == keys.drop_last()[i]);
            } else {
                assert(keys[keys.len() - 1].skip(n as int) == k);
            }
        }
    }
}

/// Stripping keeps distinctness when the enumerated keys are distinct and
/// share their first `n` characters.
pub(crate) proof fn lemma_strip_all_distinct(n: nat, keys: Seq<Seq<char>>)
    requires
        forall|i: int, j: int| 0 <= i < j < keys.len() ==> keys[i] != keys[j],
        forall|i: int, j: int|
            0 <= i < keys.len() && 0 <= j < keys.len() ==> #[trigger] keys[i].take(n as int)
                == #[trigger] keys[j].take(n as int),
        forall|i: int| 0 <= i < keys.len() ==> #[trigger] keys[i].len() >= n,
    ensures
        forall|a: int, b: int|
            0 <= a < b < strip_all(n, keys).len() ==> strip_all(n, keys)[a] != strip_all(
                n,
                keys,
            )[b],
    decreases keys.len(),
{
    if keys.len() > 0 {
        let prev = strip_all(n, keys.drop_last());
        let whole = strip_all(n, keys);
        assert forall|i: int, j: int| 0 <= i < j < keys.drop_last().len() implies keys.drop_last()[i]
            != keys.drop_last()[j] by {
            assert(keys.drop_last()[i] == keys[i]);
            assert(keys.drop_last()[j] == keys[j]);
        }
        assert forall|i: int, j: int|
            0 <= i < keys.drop_last().len() && 0 <= j < keys.drop_last().len() implies #[trigger] keys.drop_last()[i].take(n as int) == #[trigger] keys.drop_last()[j].take(
            n as int,
        ) by {
            assert(keys.drop_last()[i] == keys[i]);
            assert(keys.drop_last()[j] == keys[j]);
        }
        assert forall|i: int| 0 <= i < keys.drop_last().len() implies #[trigger] keys.drop_last()[i].len()
            >= n by {
            assert(keys.drop_last()[i] == keys[i]);
        }
        lemma_strip_all_distinct(n, keys.drop_last());
        if keys.last().len() > n {
            assert(whole == prev + seq![keys.last().skip(n as int)]);
            assert forall|a: int| 0 <= a < prev.len() implies prev[a] != keys.last().skip(
                n as int,
            ) by {
                lemma_strip_all_membership(n, keys.drop_last(), prev[a]);
                let i = choose|i: int|
                    0 <= i < keys.drop_last().len() && keys.drop_last()[i].len() > n
                        && keys.drop_last()[i].skip(n as int) == prev[a];
                assert(keys.drop_last()[i] == keys[i]);
                if prev[a] == keys.last().skip(n as int) {
                    assert(keys[i].take(n as int) == keys.last().take(n as int));
                    assert(keys[i] =~= keys[i].take(n as int) + keys[i].skip(n as int));
                    assert(keys.last() =~= keys.last().take(n as int) + keys.last().skip(
                        n as int,
                    ));
                    assert(keys[i] == keys[keys.len() - 1]);
                }
            }
            assert forall|a: int, b: int| 0 <= a < b < whole.len() implies whole[a]
                != whole[b] by {
                if b < prev.len() {
                    assert(whole[a] == prev[a]);
                    assert(whole[b] == prev[b]);
                } else {
                    assert(whole[a] == prev[a]);
                    assert(whole[b] == keys.last().skip(n as int));
                }
            }
        } else {
            assert(whole =~= prev);
        }
    }
}

/// Builds the physical key `token:key`.
pub fn physical_key(token: &str, key: &str) -> (r: String)
    ensures
        r@ == physical_key_spec(token@, key@),
{
    let s = String::from_str(token);
    let s = s.concat(":");
    let s = s.concat(key);
    proof {
        reveal_strlit(":");
        assert(s@ =~= physical_key_spec(token@, key@));
    }
    s
}

/// Builds the enumeration pattern `token:prefix*` handed to the backend's
/// pattern scan. An empty prefix yields `token:*`, every key of the
/// namespace.
pub fn list_pattern(token: &str, prefix: &str) -> (r: String)
    ensures
        r@ == list_pattern_spec(token@, prefix@),
{
    let s = physical_key(token, prefix).concat("*");
    proof {
        reveal_strlit("*");
        assert(s@ =~= list_pattern_spec(token@, prefix@));
    }
    s
}

/// Strips the `token:` namespace prefix from each enumerated physical key,
/// dropping any key not longer than the prefix itself rather than returning
/// a malformed logical key.
pub fn strip_namespace(token: &str, keys: Vec<String>) -> (r: Vec<String>)
    requires
        token@.len() < usize::MAX,
    ensures
        r.deep_view() == strip_all(token@.len() + 1, keys.deep_view()),
{
    let n: usize = token.unicode_len() + 1;
    let mut out: Vec<String> = Vec::new();
    let mut i: usize = 0;
    while i < keys.len()
        invariant
            n == token@.len() + 1,
            i <= keys@.len(),
            out.deep_view() == strip_all(n as nat, keys.deep_view().take(i as int)),
        decreases keys@.len() - i,
    {
        proof {
            assert(keys.deep_view().take(i + 1).drop_last() =~= keys.deep_view().take(i as int));
            assert(keys.deep_view().take(i + 1).last() == keys[i as int]@);
        }
        let k = &keys[i];
        let klen = k.as_str().unicode_len();
        if klen > n {
            let stripped = str_skip(k.as_str(), n);
            out.push(stripped);
            proof {
                assert(out.deep_view() =~= strip_all(n as nat, keys.deep_view().take(i + 1)));
            }
        } else {
            proof {
                assert(out.deep_view() =~= strip_all(n as nat, keys.deep_view().take(i + 1)));
            }
        }
        i += 1;
    }
    proof {
        assert(keys.deep_view().take(keys@.len() as int) =~= keys.deep_view());
    }
    out
}

} // verus!
