//! Version selection: candidate version names are plain strings, and the
//! automatic policy picks the maximum under ordinary lexicographic character
//! order (no numeric parsing: `"9.0"` sorts above `"10.0"`; that is the
//! stated policy, not an accident).

use vstd::prelude::*;
use vstd::string::*;

verus! {

/// Lexicographic comparison of the tails of `a` and `b` from position `i`:
/// the first differing character decides by its scalar value; a string that
/// runs out first sorts below.
pub open spec fn lex_le_from(a: Seq<char>, b: Seq<char>, i: int) -> bool
    decreases a.len() - i,
{
    if i < 0 || i >= a.len() {
        true
    } else if i >= b.len() {
        false
    } else if (a[i] as u32) == (b[i] as u32) {
        lex_le_from(a, b, i + 1)
    } else {
        (a[i] as u32) < (b[i] as u32)
    }
}

/// Ordinary lexicographic order on character sequences.
pub open spec fn lex_le(a: Seq<char>, b: Seq<char>) -> bool {
    lex_le_from(a, b, 0)
}

/// The lexicographic order is total.
pub proof fn lemma_lex_le_total(a: Seq<char>, b: Seq<char>)
    ensures
        lex_le(a, b) || lex_le(b, a),
{
    lemma_lex_le_total_from(a, b, 0);
}

proof fn lemma_lex_le_total_from(a: Seq<char>, b: Seq<char>, i: int)
    requires
        0 <= i,
    ensures
        lex_le_from(a, b, i) || lex_le_from(b, a, i),
    decreases a.len() - i,
{
    if i >= a.len() || i >= b.len() {
    } else if (a[i] as u32) == (b[i] as u32) {
        lemma_lex_le_total_from(a, b, i + 1);
    }
}

/// The lexicographic order is reflexive.
pub proof fn lemma_lex_le_refl(a: Seq<char>)
    ensures
        lex_le(a, a),
{
    lemma_lex_le_refl_from(a, 0);
}

proof fn lemma_lex_le_refl_from(a: Seq<char>, i: int)
    requires
        0 <= i,
    ensures
        lex_le_from(a, a, i),
    decreases a.len() - i,
{
    if i < a.len() {
        lemma_lex_le_refl_from(a, i + 1);
    }
}

/// The lexicographic order is transitive.
pub proof fn lemma_lex_le_trans(a: Seq<char>, b: Seq<char>, c: Seq<char>)
    requires
        lex_le(a, b),
        lex_le(b, c),
    ensures
        lex_le(a, c),
{
    lemma_lex_le_trans_from(a, b, c, 0);
}

proof fn lemma_lex_le_trans_from(a: Seq<char>, b: Seq<char>, c: Seq<char>, i: int)
    requires
        0 <= i,
        lex_le_from(a, b, i),
        lex_le_from(b, c, i),
    ensures
        lex_le_from(a, c, i),
    decreases a.len() - i,
{
    if i >= a.len() {
    } else if i < b.len() && i < c.len() && (a[i] as u32) == (b[i] as u32) && (b[i] as u32) == (
    c[i] as u32) {
        lemma_lex_le_trans_from(a, b, c, i + 1);
    }
}

/// Lexicographic comparison of two string slices: `a <= b`.
pub fn lex_le_exec(a: &str, b: &str) -> (r: bool)
    ensures
        r == lex_le(a@, b@),
{
    let alen = a.unicode_len();
    let blen = b.unicode_len();
    let mut i: usize = 0;
    while i < alen && i < blen
        invariant
            alen as nat == a@.len(),
            blen as nat == b@.len(),
            i <= alen,
            i <= blen,
            lex_le(a@, b@) == lex_le_from(a@, b@, i as int),
        decreases alen - i,
    {
        let ca = a.get_char(i) as u32;
        let cb = b.get_char(i) as u32;
        if ca != cb {
            return ca < cb;
        }
        i += 1;
    }
    i >= alen
}

/// Picks the maximum candidate under lexicographic order: `None` exactly on
/// an empty candidate set; otherwise one of the candidates, above them all.
pub fn select_max_version(candidates: &Vec<String>) -> (r: Option<String>)
    ensures
        r is Some <==> candidates@.len() > 0,
        r is Some ==> exists|i: int|
            0 <= i < candidates@.len() && r->Some_0@ == candidates@[i]@,
        r is Some ==> forall|i: int|
            0 <= i < candidates@.len() ==> lex_le(#[trigger] candidates@[i]@, r->Some_0@),
{
    if candidates.len() == 0 {
        return None;
    }
    let mut best: String = candidates[0].clone();
    proof {
        lemma_lex_le_refl(best@);
    }
    let mut i: usize = 1;
    while i < candidates.len()
        invariant
            1 <= i <= candidates@.len(),
            exists|j: int| 0 <= j < i && best@ == candidates@[j]@,
            forall|j: int| 0 <= j < i ==> lex_le(#[trigger] candidates@[j]@, best@),
        decreases candidates@.len() - i,
    {
        let cand = &candidates[i];
        if lex_le_exec(best.as_str(), cand.as_str()) {
            assert forall|j: int| 0 <= j < i + 1 implies lex_le(
                #[trigger] candidates@[j]@,
                cand@,
            ) by {
                if j < i {
                    lemma_lex_le_trans(candidates@[j]@, best@, cand@);
                } else {
                    lemma_lex_le_refl(cand@);
                }
            }
            best = cand.clone();
        } else {
            proof {
                lemma_lex_le_total(best@, cand@);
            }
        }
        i += 1;
    }
    Some(best)
}

} // verus!
