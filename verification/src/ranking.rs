//! Orders of positions: a list of distinct positions sorted by a strict
//! total order on positions, kept sorted as positions are inserted.
use vstd::prelude::*;

verus! {

/// `before` is a strict total order on the positions `0..n`.
pub open spec fn strict_total_order(before: spec_fn(int, int) -> bool, n: int) -> bool {
    &&& forall|i: int| 0 <= i < n ==> !#[trigger] before(i, i)
    &&& forall|i: int, j: int|
        0 <= i < n && 0 <= j < n && i != j ==> #[trigger] before(i, j) || #[trigger] before(j, i)
    &&& forall|i: int, j: int|
        0 <= i < n && 0 <= j < n && #[trigger] before(i, j) ==> !#[trigger] before(j, i)
    &&& forall|i: int, j: int, k: int|
        0 <= i < n && 0 <= j < n && 0 <= k < n && #[trigger] before(i, j) && #[trigger] before(j, k)
            ==> before(i, k)
}

/// Each position of `order` comes before the next by `before`.
pub open spec fn sorted_by(order: Seq<usize>, before: spec_fn(int, int) -> bool) -> bool {
    forall|a: int, b: int|
        0 <= a < b < order.len() ==> before(#[trigger] order[a] as int, #[trigger] order[b] as int)
}

/// Inserting position `x` after every position that comes before it keeps
/// the order sorted.
pub proof fn lemma_insert_sorted(
    order: Seq<usize>,
    p: int,
    x: usize,
    before: spec_fn(int, int) -> bool,
    n: int,
)
    requires
        strict_total_order(before, n),
        0 <= p <= order.len(),
        x < n,
        forall|a: int| 0 <= a < order.len() ==> (#[trigger] order[a]) < n && order[a] != x,
        sorted_by(order, before),
        forall|a: int| 0 <= a < p ==> before(#[trigger] order[a] as int, x as int),
        p < order.len() ==> !before(order[p] as int, x as int),
    ensures
        sorted_by(order.insert(p, x), before),
{
    let m = order.insert(p, x);
    assert forall|a: int| p <= a < order.len() implies before(x as int, #[trigger] order[a] as int) by {
        assert(before(x as int, order[p] as int) || before(order[p] as int, x as int));
        if a > p {
            assert(before(order[p] as int, order[a] as int));
        }
    }
    assert forall|a: int, b: int| 0 <= a < b < m.len() implies before(
        #[trigger] m[a] as int,
        #[trigger] m[b] as int,
    ) by {
        if b < p {
            assert(m[a] == order[a] && m[b] == order[b]);
        } else if b == p {
            assert(m[a] == order[a] && m[b] == x);
        } else if a < p {
            assert(m[a] == order[a] && m[b] == order[b - 1]);
            assert(before(x as int, order[b - 1] as int));
        } else if a == p {
            assert(m[a] == x && m[b] == order[b - 1]);
        } else {
            assert(m[a] == order[a - 1] && m[b] == order[b - 1]);
        }
    }
}

/// After inserting `x` at `p`, the order holds exactly the old positions and `x`.
pub proof fn lemma_insert_contents(order: Seq<usize>, p: int, x: usize)
    requires
        0 <= p <= order.len(),
    ensures
        forall|y: usize| #[trigger] order.insert(p, x).contains(y) <==> (order.contains(y) || y == x),
{
    let m = order.insert(p, x);
    assert forall|y: usize| #[trigger] m.contains(y) <==> (order.contains(y) || y == x) by {
        if m.contains(y) {
            let a = choose|a: int| 0 <= a < m.len() && m[a] == y;
            if a < p {
                assert(order[a] == y);
            } else if a > p {
                assert(order[a - 1] == y);
            }
        }
        if order.contains(y) {
            let a = choose|a: int| 0 <= a < order.len() && order[a] == y;
            if a < p {
                assert(m[a] == y);
            } else {
                assert(m[a + 1] == y);
            }
        }
        if y == x {
            assert(m[p] == y);
        }
    }
}

/// Two sorted orders of the same positions are equal.
pub proof fn lemma_sorted_unique(
    o1: Seq<usize>,
    o2: Seq<usize>,
    before: spec_fn(int, int) -> bool,
    n: int,
)
    requires
        strict_total_order(before, n),
        sorted_by(o1, before),
        sorted_by(o2, before),
        forall|a: int| 0 <= a < o1.len() ==> (#[trigger] o1[a]) < n,
        forall|a: int| 0 <= a < o2.len() ==> (#[trigger] o2[a]) < n,
        forall|y: usize| o1.contains(y) <==> o2.contains(y),
    ensures
        o1 == o2,
    decreases o1.len(),
{
    if o1.len() == 0 {
        if o2.len() > 0 {
            assert(o2.contains(o2[0]));
        }
        assert(o1 =~= o2);
    } else {
        assert(o1.contains(o1[0]));
        assert(o2.contains(o2[0]));
        let j = choose|j: int| 0 <= j < o2.len() && o2[j] == o1[0];
        let i = choose|i: int| 0 <= i < o1.len() && o1[i] == o2[0];
        if o1[0] != o2[0] {
            assert(i != 0 && j != 0);
            assert(before(o1[0] as int, o1[i] as int));
            assert(before(o2[0] as int, o2[j] as int));
        }
        let t1 = o1.drop_first();
        let t2 = o2.drop_first();
        assert forall|y: usize| t1.contains(y) <==> t2.contains(y) by {
            if t1.contains(y) {
                let a = choose|a: int| 0 <= a < t1.len() && t1[a] == y;
                assert(o1[a + 1] == y);
                assert(before(o1[0] as int, o1[a + 1] as int));
                assert(o2.contains(y));
                let b = choose|b: int| 0 <= b < o2.len() && o2[b] == y;
                assert(b != 0);
                assert(t2[b - 1] == y);
            }
            if t2.contains(y) {
                let b = choose|b: int| 0 <= b < t2.len() && t2[b] == y;
                assert(o2[b + 1] == y);
                assert(before(o2[0] as int, o2[b + 1] as int));
                assert(o1.contains(y));
                let a = choose|a: int| 0 <= a < o1.len() && o1[a] == y;
                assert(a != 0);
                assert(t1[a - 1] == y);
            }
        }
        assert(sorted_by(t1, before)) by {
            assert forall|a: int, b: int| 0 <= a < b < t1.len() implies before(
                #[trigger] t1[a] as int,
                #[trigger] t1[b] as int,
            ) by {
                assert(t1[a] == o1[a + 1] && t1[b] == o1[b + 1]);
            }
        }
        assert(sorted_by(t2, before)) by {
            assert forall|a: int, b: int| 0 <= a < b < t2.len() implies before(
                #[trigger] t2[a] as int,
                #[trigger] t2[b] as int,
            ) by {
                assert(t2[a] == o2[a + 1] && t2[b] == o2[b + 1]);
            }
        }
        lemma_sorted_unique(t1, t2, before, n);
        assert(o1 =~= seq![o1[0]] + t1);
        assert(o2 =~= seq![o2[0]] + t2);
    }
}

} // verus!
