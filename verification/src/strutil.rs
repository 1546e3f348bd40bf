//! Small verified string utilities shared by the routing and proxy modules.
//!
//! Paths, prefixes, header names and URLs are all treated as sequences of
//! characters (`Seq<char>`), the view Verus gives to `str` and `String`.

use vstd::prelude::*;
use vstd::string::StrSliceExecFns;

verus! {

/// `s` with every trailing `'/'` removed.
pub open spec fn spec_trim_slashes(s: Seq<char>) -> Seq<char>
    decreases s.len(),
{
    if s.len() > 0 && s[s.len() - 1] == '/' {
        spec_trim_slashes(s.drop_last())
    } else {
        s
    }
}

/// Whether `p` is a prefix of `s`.
pub open spec fn spec_starts_with(s: Seq<char>, p: Seq<char>) -> bool {
    s.len() >= p.len() && s.subrange(0, p.len() as int) == p
}

/// Character-for-character equality of two string slices.
pub fn str_eq(a: &str, b: &str) -> (r: bool)
    ensures
        r == (a@ == b@),
{
    let alen = a.unicode_len();
    let blen = b.unicode_len();
    if alen != blen {
        proof {
            assert(a@.len() != b@.len());
        }
        return false;
    }
    let mut i: usize = 0;
    while i < alen
        invariant
            i <= alen,
            alen == a@.len(),
            blen == b@.len(),
            alen == blen,
            forall|j: int| 0 <= j < i ==> a@[j] == b@[j],
        decreases alen - i,
    {
        if a.get_char(i) != b.get_char(i) {
            return false;
        }
        i = i + 1;
    }
    proof {
        assert(a@ =~= b@);
    }
    true
}

/// Whether the first `p@.len()` characters of `a` are exactly `p`.
pub fn str_starts_with(a: &str, p: &str) -> (r: bool)
    ensures
        r == spec_starts_with(a@, p@),
{
    let alen = a.unicode_len();
    let plen = p.unicode_len();
    if plen > alen {
        return false;
    }
    let mut i: usize = 0;
    while i < plen
        invariant
            i <= plen,
            alen == a@.len(),
            plen == p@.len(),
            plen <= alen,
            forall|j: int| 0 <= j < i ==> a@[j] == p@[j],
        decreases plen - i,
    {
        if a.get_char(i) != p.get_char(i) {
            proof {
                assert(a@.subrange(0, p@.len() as int)[i as int] != p@[i as int]);
            }
            return false;
        }
        i = i + 1;
    }
    proof {
        assert(a@.subrange(0, p@.len() as int) =~= p@);
    }
    true
}

/// Borrowed slice of `s` with every trailing `'/'` removed.
pub fn trim_trailing_slashes(s: &str) -> (r: &str)
    ensures
        r@ == spec_trim_slashes(s@),
{
    let n = s.unicode_len();
    let mut k = n;
    proof {
        assert(s@.take(n as int) =~= s@);
    }
    while k > 0 && s.get_char(k - 1) == '/'
        invariant
            k <= n,
            n == s@.len(),
            spec_trim_slashes(s@) == spec_trim_slashes(s@.take(k as int)),
        decreases k,
    {
        proof {
            assert(s@.take(k as int).drop_last() =~= s@.take(k as int - 1));
        }
        k = k - 1;
    }
    proof {
        if k == 0 {
            assert(s@.take(0) =~= Seq::<char>::empty());
        }
        assert(spec_trim_slashes(s@.take(k as int)) == s@.take(k as int));
    }
    s.substring_char(0, k)
}

/// Relies on `alloc`'s string formatting: the result is the two inputs
/// joined with nothing between them.
#[verifier::external_body]
pub fn str_concat(a: &str, b: &str) -> (r: String)
    ensures
        r@ == a@ + b@,
{
    format!("{a}{b}")
}

} // verus!
