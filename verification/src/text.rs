//! Character-level string helpers used by the namespacing and transport
//! logic: equality, prefix test, and prefix stripping over `&str`.

use vstd::prelude::*;

verus! {

/// True iff the two strings hold the same characters.
pub fn str_eq(a: &str, b: &str) -> (r: bool)
    ensures
        r == (a@ == b@),
{
    let a_len = a.unicode_len();
    let b_len = b.unicode_len();
    if a_len != b_len {
        assert(a@ != b@) by {
            assert(a@.len() != b@.len());
        }
        return false;
    }
    let mut i: usize = 0;
    while i < a_len
        invariant
            a_len == a@.len(),
            b_len == b@.len(),
            a_len == b_len,
            i <= a_len,
            forall|j: int| 0 <= j < i ==> a@[j] == b@[j],
        decreases a_len - i,
    {
        if a.get_char(i) != b.get_char(i) {
            return false;
        }
        i += 1;
    }
    proof {
        assert(a@ =~= b@);
    }
    true
}

/// True iff `p` is a prefix of `s`.
pub fn str_starts_with(s: &str, p: &str) -> (r: bool)
    ensures
        r == p@.is_prefix_of(s@),
{
    let s_len = s.unicode_len();
    let p_len = p.unicode_len();
    if p_len > s_len {
        assert(!p@.is_prefix_of(s@));
        return false;
    }
    let head = s.substring_char(0, p_len);
    let r = str_eq(head, p);
    proof {
        assert(head@ == s@.subrange(0, p_len as int));
        assert(p@.is_prefix_of(s@) == (s@.subrange(0, p_len as int) == p@));
    }
    r
}

/// The characters of `s` after its first `n`, as an owned string.
pub fn str_skip(s: &str, n: usize) -> (r: String)
    requires
        n <= s@.len(),
    ensures
        r@ == s@.skip(n as int),
{
    let len = s.unicode_len();
    let tail = s.substring_char(n, len);
    proof {
        assert(tail@ == s@.subrange(n as int, s@.len() as int));
        assert(s@.skip(n as int) =~= s@.subrange(n as int, s@.len() as int));
    }
    String::from_str(tail)
}

} // verus!
