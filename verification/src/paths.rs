use vstd::prelude::*;
use vstd::string::StrSliceExecFns;

verus! {

/// Index just after the last `/` in `p`; `0` when `p` holds no `/`.
/// Everything before this index is the directory part of the path,
/// everything from it on is the file name.
pub open spec fn base_split(p: Seq<char>) -> int
    decreases p.len(),
{
    if p.len() == 0 {
        0
    } else if p.last() == '/' {
        p.len() as int
    } else {
        base_split(p.drop_last())
    }
}

/// The directory part of a path, up to and including the last `/`.
pub open spec fn dir_of(p: Seq<char>) -> Seq<char> {
    p.take(base_split(p))
}

/// The file name of a path: everything after the last `/`.
pub open spec fn base_of(p: Seq<char>) -> Seq<char> {
    p.skip(base_split(p))
}

pub proof fn lemma_base_split_bounds(p: Seq<char>)
    ensures
        0 <= base_split(p) <= p.len(),
    decreases p.len(),
{
    if p.len() != 0 && p.last() != '/' {
        lemma_base_split_bounds(p.drop_last());
    }
}

/// The character just before the split is a `/` (unless the split is at the
/// start), and no `/` occurs at or after the split.
pub proof fn lemma_base_split_props(p: Seq<char>)
    ensures
        base_split(p) == 0 || p[base_split(p) - 1] == '/',
        forall|i: int| base_split(p) <= i < p.len() ==> p[i] != '/',
    decreases p.len(),
{
    lemma_base_split_bounds(p);
    if p.len() == 0 {
    } else if p.last() == '/' {
    } else {
        lemma_base_split_props(p.drop_last());
        lemma_base_split_bounds(p.drop_last());
        assert forall|i: int| base_split(p) <= i < p.len() implies p[i] != '/' by {
            if i < p.len() - 1 {
                assert(p.drop_last()[i] == p[i]);
            } else {
                assert(p[i] == p.last());
            }
        }
        if base_split(p) != 0 {
            assert(p.drop_last()[base_split(p) - 1] == p[base_split(p) - 1]);
        }
    }
}

/// Appending a slash-free file name to a directory part (empty, or ending in
/// `/`) splits exactly at the boundary.
pub proof fn lemma_base_split_concat(a: Seq<char>, b: Seq<char>)
    requires
        a.len() == 0 || a.last() == '/',
        forall|i: int| 0 <= i < b.len() ==> b[i] != '/',
    ensures
        base_split(a + b) == a.len(),
    decreases b.len(),
{
    if b.len() == 0 {
        assert(a + b =~= a);
    } else {
        assert((a + b).last() == b.last());
        assert((a + b).drop_last() =~= a + b.drop_last());
        lemma_base_split_concat(a, b.drop_last());
    }
}

/// Find the index just after the last `/` of `p`.
#[verifier::loop_isolation(false)]
pub fn file_name_split(p: &str) -> (r: usize)
    ensures
        r as int == base_split(p@),
{
    let len = p.unicode_len();
    assert(p@.take(len as int) =~= p@);
    let mut i = len;
    while i > 0
        invariant
            i <= len,
            base_split(p@) == base_split(p@.take(i as int)),
        decreases i,
    {
        let c = p.get_char(i - 1);
        if c == '/' {
            assert(p@.take(i as int).last() == '/');
            return i;
        }
        assert(p@.take(i as int).drop_last() =~= p@.take(i - 1 as int));
        i = i - 1;
    }
    assert(p@.take(0).len() == 0);
    0
}

/// The file name of a path: everything after the last `/`.
pub fn file_name(p: &str) -> (r: String)
    ensures
        r@ == base_of(p@),
{
    proof {
        lemma_base_split_bounds(p@);
    }
    let s = file_name_split(p);
    let len = p.unicode_len();
    String::from_str(p.substring_char(s, len))
}

/// Replace the file name of `p` with `name`, keeping the directory part.
pub fn with_file_name(p: &str, name: &str) -> (r: String)
    ensures
        r@ == dir_of(p@) + name@,
{
    proof {
        lemma_base_split_bounds(p@);
    }
    let s = file_name_split(p);
    let mut r = String::from_str(p.substring_char(0, s));
    r.append(name);
    r
}

/// Whether `prefix` is a prefix of `s`.
#[verifier::loop_isolation(false)]
pub fn has_prefix(s: &str, prefix: &str) -> (r: bool)
    ensures
        r == prefix@.is_prefix_of(s@),
{
    let plen = prefix.unicode_len();
    let slen = s.unicode_len();
    if plen > slen {
        return false;
    }
    let mut i: usize = 0;
    while i < plen
        invariant
            i <= plen,
            plen <= slen,
            forall|j: int| 0 <= j < i ==> prefix@[j] == s@[j],
        decreases plen - i,
    {
        if s.get_char(i) != prefix.get_char(i) {
            assert(!prefix@.is_prefix_of(s@)) by {
                assert(prefix@[i as int] != s@.take(plen as int)[i as int]);
            }
            return false;
        }
        i = i + 1;
    }
    assert(prefix@ =~= s@.take(plen as int));
    true
}

/// Whether two string slices hold the same characters.
pub fn str_eq(a: &str, b: &str) -> (r: bool)
    ensures
        r == (a@ == b@),
{
    let sa = String::from_str(a);
    let sb = String::from_str(b);
    sa == sb
}

} // verus!
