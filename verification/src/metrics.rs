//! Edit distance, the basis of the word and character error rates.
use vstd::prelude::*;
use vstd::std_specs::cmp::PartialEqSpec;

verus! {

pub open spec fn min3(x: int, y: int, z: int) -> int {
    if x <= y && x <= z {
        x
    } else if y <= z {
        y
    } else {
        z
    }
}

pub open spec fn max2(x: int, y: int) -> int {
    if x >= y {
        x
    } else {
        y
    }
}

/// The Levenshtein distance: the least number of insertions, deletions and
/// substitutions that turn `a` into `b`, with elements compared by `==`.
pub open spec fn edit_distance<T: PartialEq>(a: Seq<T>, b: Seq<T>) -> int
    decreases a.len() + b.len(),
{
    if a.len() == 0 {
        b.len() as int
    } else if b.len() == 0 {
        a.len() as int
    } else {
        let cost: int = if a.last().eq_spec(&b.last()) {
            0
        } else {
            1
        };
        min3(
            edit_distance(a.drop_last(), b) + 1,
            edit_distance(a, b.drop_last()) + 1,
            edit_distance(a.drop_last(), b.drop_last()) + cost,
        )
    }
}

/// The distance is never more than the longer length.
pub proof fn lemma_edit_distance_bounds<T: PartialEq>(a: Seq<T>, b: Seq<T>)
    ensures
        0 <= edit_distance(a, b) <= max2(a.len() as int, b.len() as int),
    decreases a.len() + b.len(),
{
    if a.len() > 0 && b.len() > 0 {
        lemma_edit_distance_bounds(a.drop_last(), b);
        lemma_edit_distance_bounds(a, b.drop_last());
        lemma_edit_distance_bounds(a.drop_last(), b.drop_last());
    }
}

/// Levenshtein edit distance between two sequences.
pub fn levenshtein<T: PartialEq>(a: &[T], b: &[T]) -> (r: usize)
    requires
        a.len() < usize::MAX,
        b.len() < usize::MAX,
    ensures
        a.len() == 0 ==> r == b.len(),
        b.len() == 0 ==> r == a.len(),
        r <= max2(a.len() as int, b.len() as int),
        T::obeys_eq_spec() ==> r == edit_distance(a@, b@),
{
    let n = a.len();
    let m = b.len();
    if n == 0 {
        return m;
    }
    if m == 0 {
        return n;
    }
    let mut prev: Vec<usize> = Vec::new();
    let mut k: usize = 0;
    while k <= m
        invariant
            n == a.len(),
            m == b.len(),
            m < usize::MAX,
            k <= m + 1,
            prev@.len() == k,
            forall|j: int| 0 <= j < k ==> #[trigger] prev@[j] == j,
        decreases m + 1 - k,
    {
        prev.push(k);
        k = k + 1;
    }
    let mut curr: Vec<usize> = Vec::new();
    k = 0;
    while k <= m
        invariant
            m == b.len(),
            m < usize::MAX,
            k <= m + 1,
            curr@.len() == k,
        decreases m + 1 - k,
    {
        curr.push(0);
        k = k + 1;
    }
    proof {
        if T::obeys_eq_spec() {
            assert forall|j: int| 0 <= j <= m implies prev@[j] == edit_distance(
                a@.take(0),
                #[trigger] b@.take(j),
            ) by {
                assert(a@.take(0).len() == 0);
            }
        }
    }
    let mut i: usize = 1;
    while i <= n
        invariant
            n == a.len(),
            m == b.len(),
            n < usize::MAX,
            m < usize::MAX,
            1 <= i <= n + 1,
            prev@.len() == m + 1,
            curr@.len() == m + 1,
            T::obeys_eq_spec() ==> forall|j: int|
                0 <= j <= m ==> prev@[j] == edit_distance(a@.take(i - 1), #[trigger] b@.take(j)),
            forall|k: int| 0 <= k <= m ==> #[trigger] prev@[k] <= max2(i - 1, k),
        decreases n + 1 - i,
    {
        curr.set(0, i);
        proof {
            if T::obeys_eq_spec() {
                assert(b@.take(0).len() == 0);
                assert(a@.take(i as int).len() == i);
            }
        }
        let mut j: usize = 1;
        while j <= m
            invariant
                n == a.len(),
                m == b.len(),
                n < usize::MAX,
                m < usize::MAX,
                1 <= i <= n,
                1 <= j <= m + 1,
                prev@.len() == m + 1,
                curr@.len() == m + 1,
                T::obeys_eq_spec() ==> forall|k: int|
                    0 <= k <= m ==> prev@[k] == edit_distance(a@.take(i - 1), #[trigger] b@.take(k)),
                T::obeys_eq_spec() ==> forall|k: int|
                    0 <= k < j ==> curr@[k] == edit_distance(a@.take(i as int), #[trigger] b@.take(k)),
                forall|k: int| 0 <= k <= m ==> #[trigger] prev@[k] <= max2(i - 1, k),
                forall|k: int| 0 <= k < j ==> #[trigger] curr@[k] <= max2(i as int, k),
            decreases m + 1 - j,
        {
            let same = a[i - 1] == b[j - 1];
            let cost: usize = if same {
                0
            } else {
                1
            };
            let ghost ai = a@.take(i as int);
            let ghost bj = b@.take(j as int);
            proof {
                if T::obeys_eq_spec() {
                    assert(ai.drop_last() =~= a@.take(i - 1));
                    assert(bj.drop_last() =~= b@.take(j - 1));
                    assert(ai.last() == a@[i - 1]);
                    assert(bj.last() == b@[j - 1]);
                    assert(prev@[j as int] == edit_distance(a@.take(i - 1), bj));
                    assert(prev@[j - 1] == edit_distance(a@.take(i - 1), b@.take(j - 1)));
                    assert(curr@[j - 1] == edit_distance(ai, b@.take(j - 1)));
                }
            }
            assert(prev@[j as int] <= max2(i - 1, j as int));
            assert(prev@[j - 1] <= max2(i - 1, j - 1));
            assert(curr@[j - 1] <= max2(i as int, j - 1));
            let del = prev[j] + 1;
            let ins = curr[j - 1] + 1;
            let sub = prev[j - 1] + cost;
            let mut best = del;
            if ins < best {
                best = ins;
            }
            if sub < best {
                best = sub;
            }
            curr.set(j, best);
            j = j + 1;
        }
        std::mem::swap(&mut prev, &mut curr);
        i = i + 1;
    }
    assert(a@.take(n as int) =~= a@);
    assert(b@.take(m as int) =~= b@);
    prev[m]
}


/// A sequence is at distance zero from itself (for an equality that holds
/// of every element and itself).
pub proof fn lemma_edit_distance_self<T: PartialEq>(a: Seq<T>)
    requires
        forall|x: T| #[trigger] x.eq_spec(&x),
    ensures
        edit_distance(a, a) == 0,
    decreases a.len(),
{
    if a.len() > 0 {
        lemma_edit_distance_self(a.drop_last());
        assert(a.last().eq_spec(&a.last()));
        lemma_edit_distance_bounds(a.drop_last(), a);
        lemma_edit_distance_bounds(a, a.drop_last());
    }
}

/// The distance is symmetric when the equality is.
pub proof fn lemma_edit_distance_symmetric<T: PartialEq>(a: Seq<T>, b: Seq<T>)
    requires
        forall|x: T, y: T| #[trigger] x.eq_spec(&y) == y.eq_spec(&x),
    ensures
        edit_distance(a, b) == edit_distance(b, a),
    decreases a.len() + b.len(),
{
    if a.len() > 0 && b.len() > 0 {
        lemma_edit_distance_symmetric(a.drop_last(), b);
        lemma_edit_distance_symmetric(a, b.drop_last());
        lemma_edit_distance_symmetric(a.drop_last(), b.drop_last());
        assert(a.last().eq_spec(&b.last()) == b.last().eq_spec(&a.last()));
    }
}


/// The distance is at least the difference of the lengths.
pub proof fn lemma_edit_distance_lower_bound<T: PartialEq>(a: Seq<T>, b: Seq<T>)
    ensures
        edit_distance(a, b) >= a.len() - b.len(),
        edit_distance(a, b) >= b.len() - a.len(),
    decreases a.len() + b.len(),
{
    if a.len() > 0 && b.len() > 0 {
        lemma_edit_distance_lower_bound(a.drop_last(), b);
        lemma_edit_distance_lower_bound(a, b.drop_last());
        lemma_edit_distance_lower_bound(a.drop_last(), b.drop_last());
    }
}

/// Elementwise equality of two sequences under `==` of their elements.
pub open spec fn same_elements<T: PartialEq>(a: Seq<T>, b: Seq<T>) -> bool {
    &&& a.len() == b.len()
    &&& forall|i: int| 0 <= i < a.len() ==> (#[trigger] a[i]).eq_spec(&b[i])
}

/// The distance is zero exactly when the sequences have the same length and
/// equal elements at every position.
pub proof fn lemma_edit_distance_zero<T: PartialEq>(a: Seq<T>, b: Seq<T>)
    ensures
        edit_distance(a, b) == 0 <==> same_elements(a, b),
    decreases a.len() + b.len(),
{
    lemma_edit_distance_lower_bound(a, b);
    lemma_edit_distance_bounds(a, b);
    if a.len() > 0 && b.len() > 0 {
        let (ap, bp) = (a.drop_last(), b.drop_last());
        lemma_edit_distance_zero(ap, bp);
        lemma_edit_distance_bounds(ap, b);
        lemma_edit_distance_bounds(a, bp);
        lemma_edit_distance_bounds(ap, bp);
        if same_elements(a, b) {
            assert forall|i: int| 0 <= i < ap.len() implies (#[trigger] ap[i]).eq_spec(&bp[i]) by {
                assert(a[i].eq_spec(&b[i]));
            }
            assert(a[a.len() - 1].eq_spec(&b[b.len() - 1]));
        }
        if edit_distance(a, b) == 0 {
            assert(a.last().eq_spec(&b.last()));
            assert(same_elements(ap, bp));
            assert forall|i: int| 0 <= i < a.len() implies (#[trigger] a[i]).eq_spec(&b[i]) by {
                if i < ap.len() {
                    assert(ap[i].eq_spec(&bp[i]));
                }
            }
        }
    }
}

/// The triangle inequality, when the element equality is transitive:
/// going from `a` to `c` costs no more than going through `b`.
pub proof fn lemma_edit_distance_triangle<T: PartialEq>(a: Seq<T>, b: Seq<T>, c: Seq<T>)
    requires
        forall|x: T, y: T, z: T| #[trigger] x.eq_spec(&y) && #[trigger] y.eq_spec(&z) ==> x.eq_spec(&z),
    ensures
        edit_distance(a, c) <= edit_distance(a, b) + edit_distance(b, c),
    decreases a.len() + b.len() + c.len(),
{
    if b.len() == 0 {
        lemma_edit_distance_bounds(a, c);
    } else if a.len() == 0 {
        lemma_edit_distance_lower_bound(b, c);
    } else if c.len() == 0 {
        lemma_edit_distance_lower_bound(a, b);
    } else {
        let (ap, bp, cp) = (a.drop_last(), b.drop_last(), c.drop_last());
        let dab = edit_distance(a, b);
        let dbc = edit_distance(b, c);
        if dab == edit_distance(ap, b) + 1 {
            lemma_edit_distance_triangle(ap, b, c);
        } else if dbc == edit_distance(b, cp) + 1 {
            lemma_edit_distance_triangle(a, b, cp);
        } else if dab == edit_distance(a, bp) + 1 {
            if dbc == edit_distance(bp, c) + 1 {
                lemma_edit_distance_triangle(a, bp, c);
            } else {
                lemma_edit_distance_triangle(a, bp, cp);
            }
        } else {
            if dbc == edit_distance(bp, c) + 1 {
                lemma_edit_distance_triangle(ap, bp, c);
            } else {
                lemma_edit_distance_triangle(ap, bp, cp);
                if a.last().eq_spec(&b.last()) && b.last().eq_spec(&c.last()) {
                    assert(a.last().eq_spec(&c.last()));
                }
            }
        }
    }
}


/// When `==` on the elements is an equivalence, the edit distance is a
/// metric on sequences: symmetric, zero exactly on elementwise-equal
/// sequences, between the difference and the larger of the lengths, and
/// obeying the triangle inequality. With `levenshtein`'s `ensures` these are
/// laws of what `levenshtein` returns for every type that obeys its `==`
/// specification.
pub proof fn lemma_edit_distance_metric<T: PartialEq>(a: Seq<T>, b: Seq<T>, c: Seq<T>)
    requires
        forall|x: T| #[trigger] x.eq_spec(&x),
        forall|x: T, y: T| #[trigger] x.eq_spec(&y) == y.eq_spec(&x),
        forall|x: T, y: T, z: T| #[trigger] x.eq_spec(&y) && #[trigger] y.eq_spec(&z) ==> x.eq_spec(&z),
    ensures
        edit_distance(a, b) == edit_distance(b, a),
        edit_distance(a, b) == 0 <==> same_elements(a, b),
        edit_distance(a, a) == 0,
        max2(a.len() - b.len(), b.len() - a.len()) <= edit_distance(a, b) <= max2(
            a.len() as int,
            b.len() as int,
        ),
        edit_distance(a, c) <= edit_distance(a, b) + edit_distance(b, c),
{
    lemma_edit_distance_symmetric(a, b);
    lemma_edit_distance_zero(a, b);
    lemma_edit_distance_self(a);
    lemma_edit_distance_lower_bound(a, b);
    lemma_edit_distance_bounds(a, b);
    lemma_edit_distance_triangle(a, b, c);
}

} // verus!
