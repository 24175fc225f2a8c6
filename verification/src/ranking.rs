//! The order of names and of frequency entries.
//!
//! Names are ordered as strings are: character by character, a proper prefix
//! before the longer name. Entries are ordered by count, larger first, and
//! among equal counts by name.

use vstd::prelude::*;
use crate::text::chars_of;

verus! {

/// Whether `a` stands before `b` in the order of strings.
pub open spec fn name_less(a: Seq<char>, b: Seq<char>) -> bool
    decreases a.len(),
{
    if b.len() == 0 {
        false
    } else if a.len() == 0 {
        true
    } else if a[0] != b[0] {
        a[0] < b[0]
    } else {
        name_less(a.drop_first(), b.drop_first())
    }
}

/// Whether the entry `a` stands before the entry `b` in a frequency table:
/// the larger count first, and the smaller name first among equal counts.
pub open spec fn ranks_before(a: (Seq<char>, nat), b: (Seq<char>, nat)) -> bool {
    a.1 > b.1 || (a.1 == b.1 && name_less(a.0, b.0))
}

/// No name stands before itself.
pub proof fn lemma_name_less_irreflexive(a: Seq<char>)
    ensures
        !name_less(a, a),
    decreases a.len(),
{
    if a.len() > 0 {
        lemma_name_less_irreflexive(a.drop_first());
    }
}

/// Of two names at most one stands before the other.
pub proof fn lemma_name_less_asymmetric(a: Seq<char>, b: Seq<char>)
    requires
        name_less(a, b),
    ensures
        !name_less(b, a),
    decreases a.len(),
{
    if a.len() > 0 && b.len() > 0 && a[0] == b[0] {
        lemma_name_less_asymmetric(a.drop_first(), b.drop_first());
    }
}

/// The order of names is transitive.
pub proof fn lemma_name_less_transitive(a: Seq<char>, b: Seq<char>, c: Seq<char>)
    requires
        name_less(a, b),
        name_less(b, c),
    ensures
        name_less(a, c),
    decreases a.len(),
{
    if a.len() > 0 && b.len() > 0 && c.len() > 0 && a[0] == b[0] && b[0] == c[0] {
        lemma_name_less_transitive(a.drop_first(), b.drop_first(), c.drop_first());
    }
}

/// Of two different names one stands before the other.
pub proof fn lemma_name_less_total(a: Seq<char>, b: Seq<char>)
    requires
        a != b,
    ensures
        name_less(a, b) || name_less(b, a),
    decreases a.len(),
{
    if a.len() > 0 && b.len() > 0 && a[0] == b[0] {
        assert(a.drop_first() != b.drop_first()) by {
            if a.drop_first() == b.drop_first() {
                assert(a =~= seq![a[0]] + a.drop_first());
                assert(b =~= seq![b[0]] + b.drop_first());
            }
        }
        lemma_name_less_total(a.drop_first(), b.drop_first());
    } else if a.len() == 0 && b.len() == 0 {
        assert(a =~= b);
    }
}

/// The order of entries is transitive.
pub proof fn lemma_ranks_before_transitive(
    a: (Seq<char>, nat),
    b: (Seq<char>, nat),
    c: (Seq<char>, nat),
)
    requires
        ranks_before(a, b),
        ranks_before(b, c),
    ensures
        ranks_before(a, c),
{
    if a.1 == b.1 && b.1 == c.1 {
        lemma_name_less_transitive(a.0, b.0, c.0);
    }
}

/// Of two entries with different names one stands before the other, and
/// only one.
pub proof fn lemma_ranks_before_total(a: (Seq<char>, nat), b: (Seq<char>, nat))
    requires
        a.0 != b.0,
    ensures
        ranks_before(a, b) != ranks_before(b, a),
{
    lemma_name_less_total(a.0, b.0);
    if name_less(a.0, b.0) {
        lemma_name_less_asymmetric(a.0, b.0);
    }
    if name_less(b.0, a.0) {
        lemma_name_less_asymmetric(b.0, a.0);
    }
}

/// Whether `a` stands before `b` in the order of strings.
pub fn is_name_less(a: &str, b: &str) -> (less: bool)
    ensures
        less == name_less(a@, b@),
{
    let left = chars_of(a);
    let right = chars_of(b);
    let mut i: usize = 0;
    proof {
        assert(left@.skip(0) == left@);
        assert(right@.skip(0) == right@);
    }
    while i < left.len() && i < right.len()
        invariant
            i <= left.len(),
            i <= right.len(),
            left@ == a@,
            right@ == b@,
            name_less(left@, right@) == name_less(left@.skip(i as int), right@.skip(i as int)),
        decreases left.len() - i,
    {
        proof {
            let l = left@.skip(i as int);
            let r = right@.skip(i as int);
            assert(l[0] == left@[i as int] && r[0] == right@[i as int]);
            assert(l.drop_first() == left@.skip(i + 1));
            assert(r.drop_first() == right@.skip(i + 1));
        }
        if left[i] != right[i] {
            return left[i] < right[i];
        }
        i += 1;
    }
    proof {
        let l = left@.skip(i as int);
        let r = right@.skip(i as int);
        assert(l.len() == left.len() - i);
        assert(r.len() == right.len() - i);
    }
    i < right.len()
}

/// Whether an entry with name `a` and count `a_count` stands before one with
/// name `b` and count `b_count`.
pub fn is_ranked_before(a: &str, a_count: usize, b: &str, b_count: usize) -> (before: bool)
    ensures
        before == ranks_before((a@, a_count as nat), (b@, b_count as nat)),
{
    if a_count != b_count {
        a_count > b_count
    } else {
        is_name_less(a, b)
    }
}

} // verus!
