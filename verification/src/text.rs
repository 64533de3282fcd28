use vstd::prelude::*;
use vstd::string::StrSliceExecFns;

verus! {

/// Character-exact equality of two string slices.
pub fn str_eq(a: &str, b: &str) -> (r: bool)
    ensures
        r == (a@ == b@),
{
    let alen: usize = a.unicode_len();
    let blen: usize = b.unicode_len();
    if alen != blen {
        return false;
    }
    let mut i: usize = 0;
    while i < alen
        invariant
            alen == a@.len(),
            blen == b@.len(),
            alen == blen,
            i <= alen,
            forall|j: int| 0 <= j < i ==> a@[j] == b@[j],
        decreases alen - i,
    {
        if a.get_char(i) != b.get_char(i) {
            return false;
        }
        i += 1;
    }
    proof {
        assert(a@ =~= b@);
    }
    true
}

/// `s` with the prefix `p` removed; `s` unchanged when `p` is not a prefix.
pub open spec fn spec_strip_prefix(s: Seq<char>, p: Seq<char>) -> Seq<char> {
    if p.is_prefix_of(s) {
        s.skip(p.len() as int)
    } else {
        s
    }
}

/// Strip the prefix `p` from `s`, if present.
pub fn strip_prefix(s: &str, p: &str) -> (r: String)
    ensures
        r@ == spec_strip_prefix(s@, p@),
{
    let slen: usize = s.unicode_len();
    let plen: usize = p.unicode_len();
    if plen > slen {
        return s.to_owned();
    }
    let mut i: usize = 0;
    while i < plen
        invariant
            slen == s@.len(),
            plen == p@.len(),
            plen <= slen,
            i <= plen,
            forall|j: int| 0 <= j < i ==> s@[j] == p@[j],
        decreases plen - i,
    {
        if s.get_char(i) != p.get_char(i) {
            proof {
                assert(s@.subrange(0, p@.len() as int)[i as int] == s@[i as int]);
                assert(!p@.is_prefix_of(s@));
            }
            return s.to_owned();
        }
        i += 1;
    }
    proof {
        assert(p@ =~= s@.subrange(0, p@.len() as int));
    }
    let rest = s.substring_char(plen, slen);
    proof {
        assert(rest@ =~= s@.skip(p@.len() as int));
    }
    rest.to_owned()
}

/// Index of the last `/` in `s`, or -1 when `s` holds none.
pub open spec fn spec_last_slash(s: Seq<char>) -> int
    decreases s.len(),
{
    if s.len() == 0 {
        -1
    } else if s[s.len() - 1] == '/' {
        s.len() - 1
    } else {
        spec_last_slash(s.drop_last())
    }
}

/// Everything before the last `/` of a path: the parent directory, or the
/// empty string for a bare file name.
pub open spec fn spec_parent_dir(s: Seq<char>) -> Seq<char> {
    if spec_last_slash(s) >= 0 {
        s.subrange(0, spec_last_slash(s))
    } else {
        Seq::empty()
    }
}

/// Where `spec_last_slash` points: at the last slash, if there is one.
pub proof fn lemma_last_slash(s: Seq<char>)
    ensures
        spec_last_slash(s) >= 0 ==> {
            &&& spec_last_slash(s) < s.len()
            &&& s[spec_last_slash(s)] == '/'
            &&& forall|j: int| spec_last_slash(s) < j < s.len() ==> s[j] != '/'
        },
        spec_last_slash(s) < 0 ==> forall|j: int| 0 <= j < s.len() ==> s[j] != '/',
    decreases s.len(),
{
    if s.len() > 0 && s[s.len() - 1] != '/' {
        lemma_last_slash(s.drop_last());
        assert(forall|j: int| 0 <= j < s.len() - 1 ==> s[j] == s.drop_last()[j]);
    }
}

/// Conversely, the last slash's position determines `spec_last_slash`.
pub proof fn lemma_last_slash_witness(s: Seq<char>, n: int)
    requires
        0 <= n < s.len(),
        s[n] == '/',
        forall|j: int| n < j < s.len() ==> s[j] != '/',
    ensures
        spec_last_slash(s) == n,
    decreases s.len(),
{
    if s[s.len() - 1] != '/' {
        assert(forall|j: int| n < j < s.len() - 1 ==> s.drop_last()[j] != '/');
        lemma_last_slash_witness(s.drop_last(), n);
    }
}

/// The containing directory of a path: the part before the last `/`, or the
/// empty string when the path is a bare file name.
pub fn parent_dir(s: &str) -> (r: String)
    ensures
        r@ == spec_parent_dir(s@),
{
    let len: usize = s.unicode_len();
    let mut i: usize = len;
    while i > 0
        invariant
            len == s@.len(),
            i <= len,
            forall|j: int| i <= j < len ==> s@[j] != '/',
        decreases i,
    {
        if s.get_char(i - 1) == '/' {
            proof {
                lemma_last_slash_witness(s@, i - 1);
            }
            let dir = s.substring_char(0, i - 1);
            proof {
                assert(dir@ =~= spec_parent_dir(s@));
            }
            return dir.to_owned();
        }
        i -= 1;
    }
    proof {
        lemma_last_slash(s@);
        if spec_last_slash(s@) >= 0 {
            assert(s@[spec_last_slash(s@)] == '/');
            assert(false);
        }
    }
    String::new()
}

} // verus!
