//! A stable sort for the lists that dialogs show.

use crate::text;
use vstd::prelude::*;

verus! {

/// A type whose values are shown in a fixed order, equal rank allowed.
pub trait Ranked: View + Sized {
    /// `a` belongs strictly before `b`.
    spec fn precedes(a: Self::V, b: Self::V) -> bool;

    /// What follows something, follows all that does not follow it.
    proof fn lemma_rank(a: Self::V, b: Self::V, c: Self::V)
        ensures
            !Self::precedes(a, a),
            Self::precedes(a, b) ==> !Self::precedes(b, a),
            !Self::precedes(b, a) && !Self::precedes(c, b) ==> !Self::precedes(c, a),
    ;

    fn goes_before(&self, other: &Self) -> (r: bool)
        ensures
            r == Self::precedes(self@, other@),
    ;
}

pub open spec fn shown<T: Ranked>(v: Seq<T>) -> Seq<T::V> {
    v.map_values(|x: T| x@)
}

/// Where `x` goes in `s`: behind everything that `x` does not precede, counted from the end.
pub open spec fn place<T: Ranked>(s: Seq<T::V>, x: T::V) -> int
    decreases s.len(),
{
    if s.len() > 0 && T::precedes(x, s.last()) {
        place::<T>(s.drop_last(), x)
    } else {
        s.len() as int
    }
}

/// `s` in order; items of one rank keep the order they had.
pub open spec fn sorted<T: Ranked>(s: Seq<T::V>) -> Seq<T::V>
    decreases s.len(),
{
    if s.len() == 0 {
        Seq::empty()
    } else {
        let t = sorted::<T>(s.drop_last());
        t.insert(place::<T>(t, s.last()), s.last())
    }
}

pub open spec fn is_in_order<T: Ranked>(s: Seq<T::V>) -> bool {
    forall|i: int, j: int| 0 <= i < j < s.len() ==> !T::precedes(#[trigger] s[j], #[trigger] s[i])
}

pub proof fn lemma_place<T: Ranked>(s: Seq<T::V>, x: T::V)
    ensures
        0 <= place::<T>(s, x) <= s.len(),
        forall|i: int| place::<T>(s, x) <= i < s.len() ==> T::precedes(x, #[trigger] s[i]),
        place::<T>(s, x) > 0 ==> !T::precedes(x, s[place::<T>(s, x) - 1]),
    decreases s.len(),
{
    if s.len() > 0 && T::precedes(x, s.last()) {
        lemma_place::<T>(s.drop_last(), x);
        assert forall|i: int| place::<T>(s, x) <= i < s.len() implies T::precedes(
            x,
            #[trigger] s[i],
        ) by {
            if i < s.len() - 1 {
                assert(s.drop_last()[i] == s[i]);
            }
        }
    }
}

/// Sorting loses nothing, invents nothing and puts the items in order.
pub proof fn law_sorted<T: Ranked>(s: Seq<T::V>)
    ensures
        sorted::<T>(s).len() == s.len(),
        sorted::<T>(s).to_multiset() == s.to_multiset(),
        is_in_order::<T>(sorted::<T>(s)),
    decreases s.len(),
{
    if s.len() == 0 {
        assert(sorted::<T>(s) =~= s);
    } else {
        let head = s.drop_last();
        let x = s.last();
        let t = sorted::<T>(head);
        let p = place::<T>(t, x);
        law_sorted::<T>(head);
        lemma_place::<T>(t, x);
        t.insert_ensures(p, x);
        assert(t.insert(p, x).to_multiset() =~= t.to_multiset().insert(x)) by {
            vstd::seq_lib::to_multiset_insert(t, p, x);
        }
        assert(s =~= head.push(x));
        vstd::seq_lib::to_multiset_build(head, x);
        let r = t.insert(p, x);
        assert forall|i: int, j: int| 0 <= i < j < r.len() implies !T::precedes(
            #[trigger] r[j],
            #[trigger] r[i],
        ) by {
            if j == p {
                assert(r[i] == t[i]);
                if i < p - 1 {
                    assert(!T::precedes(t[p - 1], t[i]));
                    T::lemma_rank(t[i], t[p - 1], x);
                }
            } else if i == p {
                assert(r[j] == t[j - 1]);
                assert(T::precedes(x, t[j - 1]));
                T::lemma_rank(x, t[j - 1], x);
            } else {
                let a = if i < p {
                    i
                } else {
                    i - 1
                };
                let b = if j < p {
                    j
                } else {
                    j - 1
                };
                assert(r[i] == t[a] && r[j] == t[b]);
                assert(!T::precedes(t[b], t[a]));
            }
        }
    }
}

/// Sorts a list, stably.
pub fn sort<T: Ranked>(items: Vec<T>) -> (r: Vec<T>)
    ensures
        shown(r@) == sorted::<T>(shown(items@)),
{
    let ghost all = shown(items@);
    let mut out: Vec<T> = Vec::new();
    assert(shown(out@) =~= sorted::<T>(all.take(0)));
    for x in it: items
        invariant
            shown(it.seq()) == all,
            shown(out@) == sorted::<T>(all.take(it.index())),
    {
        let mut p: usize = out.len();
        let ghost so_far = shown(out@);
        proof {
            assert(so_far.take(p as int) =~= so_far);
            assert(all.take(it.index() + 1).drop_last() =~= all.take(it.index()));
            assert(all.take(it.index() + 1).last() == x@);
        }
        while p > 0 && x.goes_before(&out[p - 1])
            invariant
                p <= out@.len(),
                so_far == shown(out@),
                place::<T>(so_far.take(p as int), x@) == place::<T>(so_far, x@),
            decreases p,
        {
            assert(so_far.take(p as int).last() == out@[p - 1]@);
            assert(so_far.take(p as int).drop_last() =~= so_far.take(p - 1));
            p -= 1;
        }
        proof {
            if p > 0 {
                assert(so_far.take(p as int).last() == out@[p - 1]@);
            }
        }
        let ghost before = out@;
        out.insert(p, x);
        assert(shown(out@) =~= so_far.insert(p as int, x@));
    }
    assert(all.take(all.len() as int) =~= all);
    out
}

/// Code-point order of two texts: the first difference decides, and a prefix comes first.
pub open spec fn text_precedes(a: Seq<char>, b: Seq<char>) -> bool
    decreases a.len(),
{
    if b.len() == 0 {
        false
    } else if a.len() == 0 {
        true
    } else if a[0] == b[0] {
        text_precedes(a.drop_first(), b.drop_first())
    } else {
        a[0] < b[0]
    }
}

pub proof fn lemma_text_order(a: Seq<char>, b: Seq<char>, c: Seq<char>)
    ensures
        !text_precedes(a, a),
        text_precedes(a, b) ==> !text_precedes(b, a),
        !text_precedes(b, a) && !text_precedes(c, b) ==> !text_precedes(c, a),
        !text_precedes(a, b) && !text_precedes(b, a) ==> a == b,
    decreases a.len() + b.len() + c.len(),
{
    if a.len() > 0 {
        lemma_text_order(
            a.drop_first(),
            if b.len() > 0 {
                b.drop_first()
            } else {
                b
            },
            if c.len() > 0 {
                c.drop_first()
            } else {
                c
            },
        );
        if b.len() > 0 && a[0] == b[0] && a.drop_first() == b.drop_first() {
            assert(a =~= seq![a[0]] + a.drop_first());
            assert(b =~= seq![b[0]] + b.drop_first());
        }
    } else if b.len() > 0 {
        lemma_text_order(
            a,
            b.drop_first(),
            if c.len() > 0 {
                c.drop_first()
            } else {
                c
            },
        );
    } else if c.len() > 0 {
        assert(a =~= b);
    } else {
        assert(a =~= b);
    }
}

/// Whether `a` comes before `b` in code-point order.
pub fn text_before(a: &str, b: &str) -> (r: bool)
    ensures
        r == text_precedes(a@, b@),
{
    let x = text::chars_of(a);
    let y = text::chars_of(b);
    let mut i: usize = 0;
    assert(a@.skip(0) =~= a@);
    assert(b@.skip(0) =~= b@);
    loop
        invariant
            x@ == a@,
            y@ == b@,
            i <= x@.len(),
            i <= y@.len(),
            text_precedes(a@.skip(i as int), b@.skip(i as int)) == text_precedes(a@, b@),
        decreases x@.len() - i,
    {
        if i == y.len() {
            return false;
        }
        if i == x.len() {
            return true;
        }
        if x[i] != y[i] {
            return x[i] < y[i];
        }
        proof {
            assert(a@.skip(i as int).drop_first() =~= a@.skip(i + 1));
            assert(b@.skip(i as int).drop_first() =~= b@.skip(i + 1));
        }
        i += 1;
    }
}

} // verus!
