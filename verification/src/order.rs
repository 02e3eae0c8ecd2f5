//! Order among quantities.

use crate::quantity::Quantity;
use vstd::prelude::*;

verus! {

/// The quantities do not decrease.
pub open spec fn rising(s: Seq<Quantity>) -> bool {
    forall|i: int, j: int|
        0 <= i <= j < s.len() ==> (#[trigger] s[i]).ordinal() <= (#[trigger] s[j]).ordinal()
}

/// `t` holds the quantities of `s`, each as often as `s` does, and does not decrease.
pub open spec fn sorted_form(t: Seq<Quantity>, s: Seq<Quantity>) -> bool {
    rising(t) && t.to_multiset() == s.to_multiset()
}

/// `m` stands in the middle once the quantities are sorted; of two in the middle, it is
/// the upper one.
pub open spec fn middle(m: Quantity, s: Seq<Quantity>) -> bool {
    exists|t: Seq<Quantity>| #[trigger]
        sorted_form(t, s) && t.len() > 0 && m == t[t.len() as int / 2]
}

/// How many of the quantities lie at the place `x` or below.
spec fn tally(s: Seq<Quantity>, x: int) -> nat
    decreases s.len(),
{
    if s.len() == 0 {
        0
    } else {
        tally(s.drop_last(), x) + (if s.last().ordinal() <= x { 1nat } else { 0nat })
    }
}

/// Taking out one quantity takes it out of the tally.
proof fn tally_without(s: Seq<Quantity>, i: int, x: int)
    requires
        0 <= i < s.len(),
    ensures
        tally(s, x) == tally(s.remove(i), x) + (if s[i].ordinal() <= x { 1nat } else { 0nat }),
    decreases s.len(),
{
    if i == s.len() - 1 {
        assert(s.remove(i) =~= s.drop_last());
    } else {
        tally_without(s.drop_last(), i, x);
        assert(s.remove(i).drop_last() =~= s.drop_last().remove(i));
    }
}

/// The order of the quantities does not change the tally.
proof fn tally_ignores_order(s: Seq<Quantity>, t: Seq<Quantity>, x: int)
    requires
        s.to_multiset() == t.to_multiset(),
    ensures
        tally(s, x) == tally(t, x),
    decreases s.len(),
{
    s.to_multiset_ensures();
    t.to_multiset_ensures();
    if s.len() > 0 {
        let a = s.last();
        assert(s.contains(a));
        assert(s.to_multiset().count(a) > 0);
        assert(t.contains(a));
        let j = choose|j: int| 0 <= j < t.len() && t[j] == a;
        tally_without(t, j, x);
        assert(s.remove(s.len() - 1) =~= s.drop_last());
        tally_ignores_order(s.drop_last(), t.remove(j), x);
    }
}

/// In a rising sequence the tally tells the places apart.
proof fn tally_finds_place(t: Seq<Quantity>, i: int, x: int)
    requires
        rising(t),
        0 <= i < t.len(),
    ensures
        t[i].ordinal() <= x <==> tally(t, x) > i,
    decreases t.len(),
{
    let u = t.drop_last();
    tally_bounded(u, x);
    if i < t.len() - 1 {
        tally_finds_place(u, i, x);
        if u[i].ordinal() > x {
            assert(t.last().ordinal() > x);
        }
    } else if t.len() > 1 {
        tally_finds_place(u, i - 1, x);
        assert(t[i - 1].ordinal() <= t[i].ordinal());
    }
}

/// A tally counts no quantity twice.
proof fn tally_bounded(t: Seq<Quantity>, x: int)
    ensures
        tally(t, x) <= t.len(),
    decreases t.len(),
{
    if t.len() > 0 {
        tally_bounded(t.drop_last(), x);
    }
}

/// All sorted forms agree, place by place, so any two medians are the same number.
pub proof fn median_is_unique(s: Seq<Quantity>, m: Quantity, n: Quantity)
    requires
        middle(m, s),
        middle(n, s),
    ensures
        m.ordinal() == n.ordinal(),
{
    let t = choose|t: Seq<Quantity>| #[trigger]
        sorted_form(t, s) && t.len() > 0 && m == t[t.len() as int / 2];
    let u = choose|u: Seq<Quantity>| #[trigger]
        sorted_form(u, s) && u.len() > 0 && n == u[u.len() as int / 2];
    t.to_multiset_ensures();
    u.to_multiset_ensures();
    let i = t.len() as int / 2;
    tally_ignores_order(t, u, m.ordinal());
    tally_ignores_order(t, u, n.ordinal());
    tally_finds_place(t, i, m.ordinal());
    tally_finds_place(u, i, m.ordinal());
    tally_finds_place(t, i, n.ordinal());
    tally_finds_place(u, i, n.ordinal());
}

/// The median is one of the quantities.
pub proof fn median_is_among(s: Seq<Quantity>, m: Quantity)
    requires
        middle(m, s),
    ensures
        s.contains(m),
{
    let t = choose|t: Seq<Quantity>| #[trigger]
        sorted_form(t, s) && t.len() > 0 && m == t[t.len() as int / 2];
    t.to_multiset_ensures();
    s.to_multiset_ensures();
    assert(t.contains(m));
    assert(t.to_multiset().count(m) > 0);
}

/// Sorts the quantities.
pub fn sort(v: &Vec<Quantity>) -> (r: Vec<Quantity>)
    ensures
        sorted_form(r@, v@),
        r@.len() == v@.len(),
{
    let mut out: Vec<Quantity> = Vec::new();
    let mut i: usize = 0;
    assert(out@ =~= v@.take(0));
    while i < v.len()
        invariant
            i <= v@.len(),
            out@.len() == i,
            sorted_form(out@, v@.take(i as int)),
        decreases v@.len() - i,
    {
        let x = v[i];
        let mut k: usize = out.len();
        while 0 < k && x.precedes(&out[k - 1])
            invariant
                k <= out@.len(),
                forall|j: int| k <= j < out@.len() ==> x.ordinal() < (#[trigger] out@[j]).ordinal(),
            decreases k,
        {
            k = k - 1;
        }
        let ghost before = out@;
        out.insert(k, x);
        proof {
            assert(v@.take(i + 1) =~= v@.take(i as int).push(x));
            assert(out@ =~= before.insert(k as int, x));
            vstd::seq_lib::to_multiset_insert(before, k as int, x);
            vstd::seq_lib::to_multiset_build(v@.take(i as int), x);
            assert forall|a: int, b: int| 0 <= a <= b < out@.len() implies (
            #[trigger] out@[a]).ordinal() <= (#[trigger] out@[b]).ordinal() by {
                let ka = k as int;
                let at = |c: int| if c < ka { c } else { c - 1 };
                if a != k {
                    assert(out@[a] == before[at(a)]);
                }
                if b != k {
                    assert(out@[b] == before[at(b)]);
                }
                if a < k && k <= b {
                    if k > 0 {
                        assert(before[a].ordinal() <= before[k - 1].ordinal());
                    }
                }
            }
        }
        i = i + 1;
    }
    assert(v@.take(i as int) =~= v@);
    out
}

/// The quantity in the middle.
pub fn median(v: &Vec<Quantity>) -> (r: Quantity)
    requires
        v@.len() > 0,
    ensures
        middle(r, v@),
{
    let sorted = sort(v);
    sorted[sorted.len() / 2]
}

/// Counting goes by the places.
proof fn tally_counts(s: Seq<Quantity>, x: int)
    ensures
        s.filter(|q: Quantity| q.ordinal() <= x).len() == tally(s, x),
    decreases s.len(),
{
    reveal(Seq::filter);
    if s.len() > 0 {
        tally_counts(s.drop_last(), x);
    }
}

/// The median parts the quantities: at most half of them lie before it, and more than half of
/// them do not lie behind it.
pub proof fn median_parts_the_quantities(s: Seq<Quantity>, m: Quantity)
    requires
        middle(m, s),
    ensures
        s.filter(|q: Quantity| q.ordinal() <= m.ordinal() - 1).len() <= s.len() / 2,
        s.filter(|q: Quantity| q.ordinal() <= m.ordinal()).len() > s.len() / 2,
{
    let t = choose|t: Seq<Quantity>| #[trigger]
        sorted_form(t, s) && t.len() > 0 && m == t[t.len() as int / 2];
    t.to_multiset_ensures();
    s.to_multiset_ensures();
    assert(t.len() == s.len());
    let i = t.len() as int / 2;
    tally_ignores_order(t, s, m.ordinal());
    tally_ignores_order(t, s, m.ordinal() - 1);
    tally_finds_place(t, i, m.ordinal());
    tally_finds_place(t, i, m.ordinal() - 1);
    tally_counts(s, m.ordinal());
    tally_counts(s, m.ordinal() - 1);
}

} // verus!
