//! The order of texts, and sorting by it.

use vstd::prelude::*;
use crate::text::lift;

verus! {

/// Whether `a` comes before `b`, or equals it, when texts are compared
/// character by character by code point, a prefix coming first.
pub open spec fn precedes(a: Seq<char>, b: Seq<char>) -> bool
    decreases a.len(),
{
    if a.len() == 0 {
        true
    } else if b.len() == 0 {
        false
    } else if a[0] as u32 != b[0] as u32 {
        (a[0] as u32) < (b[0] as u32)
    } else {
        precedes(a.skip(1), b.skip(1))
    }
}

/// Whether each text of a sequence precedes all that follow it.
pub open spec fn ascending(s: Seq<Seq<char>>) -> bool {
    forall|i: int, j: int| 0 <= i < j < s.len() ==> precedes(s[i], s[j])
}

/// Of two texts one precedes the other.
pub proof fn precedes_total(a: Seq<char>, b: Seq<char>)
    ensures
        precedes(a, b) || precedes(b, a),
    decreases a.len(),
{
    if a.len() > 0 && b.len() > 0 && a[0] as u32 == b[0] as u32 {
        precedes_total(a.skip(1), b.skip(1));
    }
}

/// The order of texts is transitive.
pub proof fn precedes_transitive(a: Seq<char>, b: Seq<char>, c: Seq<char>)
    requires
        precedes(a, b),
        precedes(b, c),
    ensures
        precedes(a, c),
    decreases a.len(),
{
    if a.len() > 0 && b.len() > 0 && c.len() > 0 && a[0] as u32 == b[0] as u32 && b[0] as u32
        == c[0] as u32 {
        precedes_transitive(a.skip(1), b.skip(1), c.skip(1));
    }
}

proof fn same_code_same_char(x: char, y: char)
    ensures
        x as u32 == y as u32 ==> x == y,
{
    assert((x as u32) as char == x);
    assert((y as u32) as char == y);
}

/// Texts that precede each other are equal.
pub proof fn precedes_antisymmetric(a: Seq<char>, b: Seq<char>)
    requires
        precedes(a, b),
        precedes(b, a),
    ensures
        a == b,
    decreases a.len(),
{
    if a.len() > 0 && b.len() > 0 {
        precedes_antisymmetric(a.skip(1), b.skip(1));
        same_code_same_char(a[0], b[0]);
        assert(a =~= seq![a[0]] + a.skip(1));
        assert(b =~= seq![b[0]] + b.skip(1));
    } else {
        assert(a =~= b);
    }
}

/// A text precedes itself.
pub proof fn precedes_reflexive(a: Seq<char>)
    ensures
        precedes(a, a),
    decreases a.len(),
{
    if a.len() > 0 {
        precedes_reflexive(a.skip(1));
    }
}

/// The order of texts as a relation.
pub open spec fn text_order() -> spec_fn(Seq<char>, Seq<char>) -> bool {
    |a: Seq<char>, b: Seq<char>| precedes(a, b)
}

/// The texts of a sequence in ascending order.
pub open spec fn sorted(s: Seq<Seq<char>>) -> Seq<Seq<char>> {
    s.sort_by(text_order())
}

/// The order of texts is a total order.
pub proof fn text_order_is_total()
    ensures
        vstd::relations::total_ordering(text_order()),
{
    let r = text_order();
    assert forall|x: Seq<char>| #[trigger] r(x, x) by {
        precedes_reflexive(x);
    }
    assert forall|x: Seq<char>, y: Seq<char>| #[trigger] r(x, y) && #[trigger] r(y, x) implies x
        == y by {
        precedes_antisymmetric(x, y);
    }
    assert forall|x: Seq<char>, y: Seq<char>, z: Seq<char>| #[trigger]
        r(x, y) && #[trigger] r(y, z) implies r(x, z) by {
        precedes_transitive(x, y, z);
    }
    assert forall|x: Seq<char>, y: Seq<char>| #[trigger] r(x, y) || #[trigger] r(y, x) by {
        precedes_total(x, y);
    }
}

/// `sorted` is ascending and holds the same texts, each as often.
pub proof fn sorted_is_ascending(s: Seq<Seq<char>>)
    ensures
        ascending(sorted(s)),
        sorted(s).to_multiset() == s.to_multiset(),
{
    text_order_is_total();
    s.lemma_sort_by_ensures(text_order());
    let r = sorted(s);
    assert forall|i: int, j: int| 0 <= i < j < r.len() implies precedes(r[i], r[j]) by {
        assert(text_order()(r[i], r[j]));
    }
}

/// Only one ascending sequence holds the texts of `s`, each as often.
pub proof fn ascending_is_sorted(r: Seq<Seq<char>>, s: Seq<Seq<char>>)
    requires
        ascending(r),
        r.to_multiset() == s.to_multiset(),
    ensures
        r == sorted(s),
{
    text_order_is_total();
    s.lemma_sort_by_ensures(text_order());
    assert(vstd::relations::sorted_by(r, text_order()));
    vstd::seq_lib::lemma_sorted_unique(r, sorted(s), text_order());
}

/// Compares two texts.
pub fn text_precedes(a: &Vec<char>, b: &Vec<char>) -> (r: bool)
    ensures
        r == precedes(a@, b@),
{
    let mut i: usize = 0;
    assert(a@.skip(0) =~= a@ && b@.skip(0) =~= b@);
    while i < a.len() && i < b.len()
        invariant
            i <= a.len(),
            i <= b.len(),
            precedes(a@, b@) == precedes(a@.skip(i as int), b@.skip(i as int)),
        decreases a.len() - i,
    {
        let x: u32 = a[i] as u32;
        let y: u32 = b[i] as u32;
        assert(a@.skip(i as int)[0] == a@[i as int]);
        assert(b@.skip(i as int)[0] == b@[i as int]);
        if x != y {
            return x < y;
        }
        assert(a@.skip(i as int).skip(1) =~= a@.skip(i + 1));
        assert(b@.skip(i as int).skip(1) =~= b@.skip(i + 1));
        i = i + 1;
    }
    i >= a.len()
}

/// Sorts texts into ascending order.
pub fn sort_texts(items: Vec<Vec<char>>) -> (r: Vec<Vec<char>>)
    ensures
        lift(r@) == sorted(lift(items@)),
        ascending(lift(r@)),
        lift(r@).to_multiset() == lift(items@).to_multiset(),
{
    let mut out: Vec<Vec<char>> = Vec::new();
    let mut rest = items;
    let ghost mut done: Seq<Seq<char>> = Seq::empty();
    assert(done + lift(rest@) =~= lift(items@));
    assert(lift(out@) =~= done);
    while rest.len() > 0
        invariant
            ascending(lift(out@)),
            lift(out@).to_multiset() == done.to_multiset(),
            (done + lift(rest@)).to_multiset() == lift(items@).to_multiset(),
        decreases rest.len(),
    {
        let ghost before = lift(rest@);
        let x = rest.pop().unwrap();
        assert(lift(rest@) =~= before.drop_last());
        assert(before =~= lift(rest@).push(x@));
        let mut p: usize = out.len();
        while p > 0 && !text_precedes(&out[p - 1], &x)
            invariant
                p <= out.len(),
                forall|k: int| p <= k < out.len() ==> precedes(x@, #[trigger] out@[k]@),
            decreases p,
        {
            proof {
                precedes_total(out@[p - 1]@, x@);
            }
            p = p - 1;
        }
        proof {
            let old_out = lift(out@);
            let new_out = lift(out@.insert(p as int, x));
            assert(new_out =~= old_out.insert(p as int, x@));
            assert forall|i: int, j: int| 0 <= i < j < new_out.len() implies precedes(
                new_out[i],
                new_out[j],
            ) by {
                if j < p {
                    assert(new_out[i] == old_out[i] && new_out[j] == old_out[j]);
                } else if j == p {
                    assert(new_out[i] == old_out[i]);
                    if i < p - 1 {
                        precedes_transitive(old_out[i], old_out[p - 1], x@);
                    }
                } else if i < p {
                    assert(new_out[i] == old_out[i] && new_out[j] == old_out[j - 1]);
                } else if i == p {
                    assert(new_out[j] == old_out[j - 1]);
                } else {
                    assert(new_out[i] == old_out[i - 1] && new_out[j] == old_out[j - 1]);
                }
            }
            old_out.to_multiset_ensures();
            vstd::seq_lib::lemma_seq_union_to_multiset_commutative(old_out.take(p as int), old_out.skip(p as int));
            assert(old_out =~= old_out.take(p as int) + old_out.skip(p as int));
            assert(new_out =~= old_out.take(p as int).push(x@) + old_out.skip(p as int));
            vstd::seq_lib::lemma_multiset_commutative(old_out.take(p as int), old_out.skip(p as int));
            vstd::seq_lib::lemma_multiset_commutative(old_out.take(p as int).push(x@), old_out.skip(p as int));
            old_out.take(p as int).to_multiset_ensures();
            done.to_multiset_ensures();
            assert(new_out.to_multiset() =~= old_out.to_multiset().insert(x@));
            vstd::seq_lib::lemma_multiset_commutative(done, lift(rest@).push(x@));
            vstd::seq_lib::lemma_multiset_commutative(done.push(x@), lift(rest@));
            lift(rest@).to_multiset_ensures();
            assert((done.push(x@) + lift(rest@)).to_multiset() =~= (done + before).to_multiset());
            done = done.push(x@);
        }
        out.insert(p, x);
    }
    assert(done + lift(rest@) =~= done);
    proof {
        ascending_is_sorted(lift(out@), lift(items@));
    }
    out
}

} // verus!
