//! Ordering of device name lists: the listing presents each identity's
//! names sorted, so selection tooling shows a stable order.

use vstd::prelude::*;
use vstd::seq_lib::{to_multiset_insert, to_multiset_remove};
use vstd::string::StrSliceExecFns;

verus! {

/// Lexicographic order on character sequences, by code point; a prefix
/// comes before its extensions.
pub open spec fn lex_le(a: Seq<char>, b: Seq<char>) -> bool
    decreases a.len(),
{
    if a.len() == 0 {
        true
    } else if b.len() == 0 {
        false
    } else if (a.first() as u32) < (b.first() as u32) {
        true
    } else if (a.first() as u32) > (b.first() as u32) {
        false
    } else {
        lex_le(a.drop_first(), b.drop_first())
    }
}

/// Any two sequences compare one way or the other.
pub proof fn lemma_lex_le_total(a: Seq<char>, b: Seq<char>)
    ensures
        lex_le(a, b) || lex_le(b, a),
    decreases a.len(),
{
    if a.len() > 0 && b.len() > 0 && (a.first() as u32) == (b.first() as u32) {
        lemma_lex_le_total(a.drop_first(), b.drop_first());
    }
}

/// Compares two strings in the lexicographic order.
pub fn str_lex_le(a: &str, b: &str) -> (r: bool)
    ensures
        r == lex_le(a@, b@),
{
    let a_len = a.unicode_len();
    let b_len = b.unicode_len();
    proof {
        assert(a@.skip(0) =~= a@);
        assert(b@.skip(0) =~= b@);
    }
    let mut i: usize = 0;
    while i < a_len && i < b_len
        invariant
            a_len == a@.len(),
            b_len == b@.len(),
            0 <= i <= a_len,
            i <= b_len,
            lex_le(a@, b@) == lex_le(a@.skip(i as int), b@.skip(i as int)),
            lex_le(b@, a@) == lex_le(b@.skip(i as int), a@.skip(i as int)),
        decreases a_len - i,
    {
        let ca = a.get_char(i) as u32;
        let cb = b.get_char(i) as u32;
        proof {
            assert(a@.skip(i as int).first() == a@[i as int]);
            assert(b@.skip(i as int).first() == b@[i as int]);
            assert(a@.skip(i as int).drop_first() =~= a@.skip(i + 1));
            assert(b@.skip(i as int).drop_first() =~= b@.skip(i + 1));
        }
        if ca < cb {
            return true;
        }
        if ca > cb {
            return false;
        }
        i += 1;
    }
    proof {
        if i >= a_len {
            assert(a@.skip(i as int).len() == 0);
        } else {
            assert(b@.skip(i as int).len() == 0);
            assert(a@.skip(i as int).len() > 0);
        }
    }
    i >= a_len
}

/// Whether a name list is in order, adjacent pairs compared.
#[verifier::opaque]
pub open spec fn names_sorted(s: Seq<String>) -> bool {
    forall|p: int| 0 <= p < s.len() - 1 ==> #[trigger] lex_le(s[p]@, s[p + 1]@)
}

/// Sorts a name list in place (insertion sort); the names themselves are
/// only moved, so the collection of names is unchanged.
pub fn sort_names(names: &mut Vec<String>)
    ensures
        names_sorted(final(names)@),
        final(names)@.len() == old(names)@.len(),
        crate::config::names_view(final(names)@).to_multiset() == crate::config::names_view(
            old(names)@,
        ).to_multiset(),
{
    broadcast use to_multiset_insert;
    broadcast use to_multiset_remove;

    if names.len() <= 1 {
        proof {
            reveal(names_sorted);
        }
        return ;
    }
    let ghost orig_ms = crate::config::names_view(names@).to_multiset();
    let mut i: usize = 1;
    while i < names.len()
        invariant
            names@.len() == old(names)@.len(),
            1 <= i <= names@.len(),
            crate::config::names_view(names@).to_multiset() == orig_ms,
            orig_ms == crate::config::names_view(old(names)@).to_multiset(),
            forall|p: int| 0 <= p < i - 1 ==> #[trigger] lex_le(names@[p]@, names@[p + 1]@),
        decreases names@.len() - i,
    {
        let mut j: usize = i;
        let mut ordered = str_lex_le(names[j - 1].as_str(), names[j].as_str());
        while j > 0 && !ordered
            invariant
                names@.len() == old(names)@.len(),
                0 <= j <= i < names@.len(),
                crate::config::names_view(names@).to_multiset() == orig_ms,
                j > 0 ==> ordered == lex_le(names@[j - 1]@, names@[j as int]@),
                forall|p: int|
                    0 <= p < i && p != j - 1 && p != j ==> #[trigger] lex_le(
                        names@[p]@,
                        names@[p + 1]@,
                    ),
                j < i ==> lex_le(names@[j as int]@, names@[j + 1]@),
                (1 <= j && j < i) ==> lex_le(names@[j - 1]@, names@[j + 1]@),
            decreases j,
        {
            let ghost before = names@;
            let moved = names.remove(j);
            names.insert(j - 1, moved);
            proof {
                assert(names@ =~= before.update(j - 1, before[j as int]).update(
                    j as int,
                    before[j - 1],
                ));
                lemma_lex_le_total(before[j - 1]@, before[j as int]@);
                if j >= 2 {
                    let p0: int = j - 2;
                    assert(lex_le(before[p0]@, before[p0 + 1]@));
                    assert(lex_le(before[j - 2]@, before[j - 1]@));
                }
                let bv = crate::config::names_view(before);
                let y = bv[j as int];
                assert(bv.len() == before.len());
                assert(crate::config::names_view(before.remove(j as int)) =~= bv.remove(
                    j as int,
                ));
                assert(crate::config::names_view(names@) =~= bv.remove(j as int).insert(
                    j - 1,
                    y,
                ));
                vstd::seq_lib::to_multiset_remove(bv, j as int);
                vstd::seq_lib::to_multiset_insert(bv.remove(j as int), j - 1, y);
                assert(bv.remove(j as int).to_multiset() == bv.to_multiset().remove(y));
                assert(bv.remove(j as int).insert(j - 1, y).to_multiset() == bv.remove(
                    j as int,
                ).to_multiset().insert(y));
                assert(bv.contains(y));
                vstd::seq_lib::to_multiset_contains(bv, y);
                assert(bv.to_multiset().remove(y).insert(y) =~= bv.to_multiset());
            }
            j -= 1;
            if j > 0 {
                ordered = str_lex_le(names[j - 1].as_str(), names[j].as_str());
            }
        }
        proof {
            assert(forall|p: int| 0 <= p < i ==> #[trigger] lex_le(names@[p]@, names@[p + 1]@));
        }
        i += 1;
    }
    proof {
        reveal(names_sorted);
    }
}

} // verus!
