//! Small verified helpers over strings: prefix tests and path joining.

use vstd::prelude::*;
use vstd::string::*;

verus! {

/// True when `p` is a prefix of `s`.
pub open spec fn starts_with(s: Seq<char>, p: Seq<char>) -> bool {
    p.len() <= s.len() && s.subrange(0, p.len() as int) == p
}

/// Character-by-character prefix test on string slices.
pub fn str_starts_with(s: &str, p: &str) -> (b: bool)
    ensures
        b == starts_with(s@, p@),
{
    let slen = s.unicode_len();
    let plen = p.unicode_len();
    if plen > slen {
        return false;
    }
    let mut j: usize = 0;
    while j < plen
        invariant
            j <= plen,
            plen <= slen,
            plen as nat == p@.len(),
            slen as nat == s@.len(),
            forall|k: int| 0 <= k < j ==> s@[k] == p@[k],
        decreases plen - j,
    {
        if s.get_char(j) != p.get_char(j) {
            assert(!starts_with(s@, p@)) by {
                assert(s@.subrange(0, p@.len() as int)[j as int] == s@[j as int]);
            }
            return false;
        }
        j += 1;
    }
    assert(s@.subrange(0, p@.len() as int) =~= p@);
    true
}

/// The path `<dir>/<name>`.
pub open spec fn join_path(dir: Seq<char>, name: Seq<char>) -> Seq<char> {
    dir + "/"@ + name
}

/// Joins a directory path and a child name with a `/` separator.
pub fn join_path_exec(dir: &str, name: &str) -> (r: String)
    ensures
        r@ == join_path(dir@, name@),
{
    let mut r = String::from_str(dir);
    r.append("/");
    r.append(name);
    r
}

} // verus!
