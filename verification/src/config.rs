//! Caller-supplied device selections.
//!
//! An [`InputFilter`] names one hardware identity together with the subset of
//! advertised device names the caller wants acted on. Keeping the name list
//! explicit covers the corner case where several devices share one identity
//! but only some of them should be blocked.

use vstd::prelude::*;

use crate::identity::InputId;

verus! {

/// Selection of devices to act on: a hardware identity plus the device
/// names within that identity group that the selection covers.
#[derive(Clone, Debug)]
pub struct InputFilter {
    pub id: InputId,
    /// Names of the devices within the identity group to act on.
    pub names: Vec<String>,
}

/// The character sequences of a list of strings.
pub open spec fn names_view(names: Seq<String>) -> Seq<Seq<char>> {
    names.map_values(|s: String| s@)
}

/// Whether some string in `names` reads as `name`.
pub open spec fn seq_contains_string(names: Seq<String>, name: Seq<char>) -> bool {
    exists|i: int| 0 <= i < names.len() && names[i]@ == name
}

/// Whether one of `names` equals `name`, compared by contents.
pub fn names_contain(names: &Vec<String>, name: &String) -> (r: bool)
    ensures
        r == seq_contains_string(names@, name@),
{
    let mut i: usize = 0;
    while i < names.len()
        invariant
            0 <= i <= names@.len(),
            forall|j: int| 0 <= j < i ==> names@[j]@ != name@,
        decreases names@.len() - i,
    {
        if names[i] == *name {
            return true;
        }
        i += 1;
    }
    false
}

/// Two filters are the same selection: same identity, same name list.
pub open spec fn filter_eq(a: InputFilter, b: InputFilter) -> bool {
    a.id == b.id && names_view(a.names@) == names_view(b.names@)
}

/// Compares two filters by contents.
pub fn filters_equal(a: &InputFilter, b: &InputFilter) -> (r: bool)
    ensures
        r == filter_eq(*a, *b),
{
    if a.id.vendor != b.id.vendor || a.id.product != b.id.product || a.id.version != b.id.version {
        return false;
    }
    if a.names.len() != b.names.len() {
        proof {
            assert(names_view(a.names@).len() != names_view(b.names@).len());
        }
        return false;
    }
    let mut i: usize = 0;
    while i < a.names.len()
        invariant
            a.id == b.id,
            a.names@.len() == b.names@.len(),
            0 <= i <= a.names@.len(),
            forall|j: int| 0 <= j < i ==> a.names@[j]@ == b.names@[j]@,
        decreases a.names@.len() - i,
    {
        if a.names[i] != b.names[i] {
            proof {
                assert(names_view(a.names@)[i as int] != names_view(b.names@)[i as int]);
            }
            return false;
        }
        i += 1;
    }
    proof {
        assert(names_view(a.names@) =~= names_view(b.names@));
    }
    true
}

/// Copies a filter, contents preserved.
pub fn clone_filter(f: &InputFilter) -> (r: InputFilter)
    ensures
        filter_eq(r, *f),
{
    let mut names: Vec<String> = Vec::new();
    let mut i: usize = 0;
    while i < f.names.len()
        invariant
            0 <= i <= f.names@.len(),
            names@.len() == i,
            forall|j: int| 0 <= j < i ==> names@[j]@ == f.names@[j]@,
        decreases f.names@.len() - i,
    {
        names.push(f.names[i].clone());
        i += 1;
    }
    proof {
        assert(names_view(names@) =~= names_view(f.names@));
    }
    InputFilter { id: f.id, names }
}

/// Whether the held set already contains a filter equal to `f`.
pub open spec fn held_contains(held: Seq<InputFilter>, f: InputFilter) -> bool {
    exists|i: int| 0 <= i < held.len() && filter_eq(held[i], f)
}

/// Adds `f` to a set of held filters unless an equal selection is already
/// present, mirroring set semantics over a vector.
pub fn held_insert(held: &mut Vec<InputFilter>, f: InputFilter)
    ensures
        held_contains(old(held)@, f) ==> final(held)@ == old(held)@,
        !held_contains(old(held)@, f) ==> final(held)@ == old(held)@.push(f),
{
    let mut i: usize = 0;
    while i < held.len()
        invariant
            0 <= i <= held@.len(),
            held@ == old(held)@,
            forall|j: int| 0 <= j < i ==> !filter_eq(held@[j], f),
        decreases held@.len() - i,
    {
        if filters_equal(&held[i], &f) {
            return ;
        }
        i += 1;
    }
    held.push(f);
}

/// The filters that differ from `f`, as a selection predicate.
pub open spec fn keep_unequal(f: InputFilter) -> spec_fn(InputFilter) -> bool {
    |g: InputFilter| !filter_eq(g, f)
}

/// Removes every filter equal to `f` from the held set, order kept.
pub fn held_remove(held: &mut Vec<InputFilter>, f: &InputFilter)
    ensures
        final(held)@ == old(held)@.filter(keep_unequal(*f)),
{
    let ghost orig = held@;
    let ghost mut k: int = 0;
    let mut i: usize = 0;
    while i < held.len()
        invariant
            0 <= k <= orig.len(),
            i == orig.take(k).filter(keep_unequal(*f)).len(),
            held@ == orig.take(k).filter(keep_unequal(*f)) + orig.skip(k),
            i <= held@.len(),
        decreases held@.len() - i,
    {
        proof {
            assert(orig.take(k + 1).drop_last() == orig.take(k));
            assert(orig.take(k + 1).last() == orig[k]);
            reveal(Seq::filter);
            assert(held@[i as int] == orig[k]);
        }
        if filters_equal(&held[i], f) {
            held.remove(i);
            proof {
                assert(held@ =~= orig.take(k + 1).filter(keep_unequal(*f)) + orig.skip(k + 1));
            }
        } else {
            i += 1;
            proof {
                assert(held@ =~= orig.take(k + 1).filter(keep_unequal(*f)) + orig.skip(k + 1));
            }
        }
        proof {
            k = k + 1;
        }
    }
    proof {
        assert(orig.take(k) =~= orig);
    }
}

} // verus!
