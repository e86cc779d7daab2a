use vstd::prelude::*;

verus! {

/// The characters of `p` stand in `t` as a contiguous run starting at `i`.
pub open spec fn matches_at(t: Seq<char>, p: Seq<char>, i: int) -> bool {
    0 <= i && i + p.len() <= t.len() && t.subrange(i, i + p.len()) == p
}

/// `p` occurs somewhere in `t` as a contiguous run.
pub open spec fn contains_seq(t: Seq<char>, p: Seq<char>) -> bool {
    exists|i: int| matches_at(t, p, i)
}

/// `t` ends with `p`.
pub open spec fn ends_with_seq(t: Seq<char>, p: Seq<char>) -> bool {
    p.len() <= t.len() && t.subrange(t.len() - p.len(), t.len() as int) == p
}

/// Whether the characters of `p` stand in `t` at position `i`.
fn check_match_at(t: &str, p: &str, i: usize, tlen: usize, plen: usize) -> (r: bool)
    requires
        tlen == t@.len(),
        plen == p@.len(),
        i + plen <= tlen,
    ensures
        r == matches_at(t@, p@, i as int),
{
    let mut j: usize = 0;
    while j < plen
        invariant
            tlen == t@.len(),
            plen == p@.len(),
            i + plen <= tlen,
            j <= plen,
            forall|k: int| 0 <= k < j ==> t@[i + k] == p@[k],
        decreases plen - j,
    {
        if t.get_char(i + j) != p.get_char(j) {
            assert(!matches_at(t@, p@, i as int)) by {
                assert(t@.subrange(i as int, i + plen)[j as int] == t@[i + j]);
            }
            return false;
        }
        j = j + 1;
    }
    assert(t@.subrange(i as int, i + plen) =~= p@);
    true
}

/// Substring search over characters.
pub fn contains_str(t: &str, p: &str) -> (r: bool)
    ensures
        r == contains_seq(t@, p@),
{
    let tlen = t.unicode_len();
    let plen = p.unicode_len();
    if plen == 0 {
        assert(matches_at(t@, p@, 0)) by {
            assert(t@.subrange(0, 0) =~= p@);
        }
        return true;
    }
    if plen > tlen {
        return false;
    }
    let mut i: usize = 0;
    while i <= tlen - plen
        invariant
            tlen == t@.len(),
            plen == p@.len(),
            0 < plen <= tlen,
            i <= tlen - plen + 1,
            forall|k: int| 0 <= k < i ==> !matches_at(t@, p@, k),
        decreases tlen - plen - i + 1,
    {
        if check_match_at(t, p, i, tlen, plen) {
            return true;
        }
        i = i + 1;
    }
    false
}

/// Suffix test over characters.
pub fn str_ends_with(t: &str, p: &str) -> (r: bool)
    ensures
        r == ends_with_seq(t@, p@),
{
    let tlen = t.unicode_len();
    let plen = p.unicode_len();
    if plen > tlen {
        return false;
    }
    check_match_at(t, p, tlen - plen, tlen, plen)
}

/// Whether an archive entry's name marks it as a JSON file.
pub fn is_json_name(name: &str) -> (r: bool)
    ensures
        r == ends_with_seq(name@, ".json"@),
{
    str_ends_with(name, ".json")
}

/// Character-for-character string equality.
pub fn str_eq(a: &str, b: &str) -> (r: bool)
    ensures
        r == (a@ == b@),
{
    let alen = a.unicode_len();
    let blen = b.unicode_len();
    if alen != blen {
        return false;
    }
    let mut i: usize = 0;
    while i < alen
        invariant
            alen == a@.len(),
            alen == b@.len(),
            i <= alen,
            forall|k: int| 0 <= k < i ==> a@[k] == b@[k],
        decreases alen - i,
    {
        if a.get_char(i) != b.get_char(i) {
            return false;
        }
        i = i + 1;
    }
    assert(a@ =~= b@);
    true
}

} // verus!
