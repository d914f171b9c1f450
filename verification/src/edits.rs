//! Edit scripts: the Levenshtein distance is the least number of
//! single-element insertions, deletions and substitutions that turn one
//! sequence into the other.
use vstd::prelude::*;

use crate::metrics::{max2, min3};
use crate::metrics::edit_distance;
use crate::scoring::{distance, lemma_distance_self, lemma_edit_distance_is_distance};
use vstd::std_specs::cmp::PartialEqSpec;

verus! {

/// One edit at a position of a sequence.
pub enum Edit<A> {
    Insert(int, A),
    Delete(int),
    Substitute(int, A),
}

/// Whether the edit's position lies in the sequence it is applied to.
pub open spec fn edit_fits<A>(s: Seq<A>, e: Edit<A>) -> bool {
    match e {
        Edit::Insert(i, _) => 0 <= i <= s.len(),
        Edit::Delete(i) => 0 <= i < s.len(),
        Edit::Substitute(i, _) => 0 <= i < s.len(),
    }
}

/// The sequence after one edit; an edit at a position outside the
/// sequence changes nothing.
pub open spec fn apply_edit<A>(s: Seq<A>, e: Edit<A>) -> Seq<A> {
    if !edit_fits(s, e) {
        s
    } else {
        match e {
            Edit::Insert(i, v) => s.insert(i, v),
            Edit::Delete(i) => s.remove(i),
            Edit::Substitute(i, v) => s.update(i, v),
        }
    }
}

/// The sequence after the edits, in order.
pub open spec fn apply_edits<A>(s: Seq<A>, es: Seq<Edit<A>>) -> Seq<A>
    decreases es.len(),
{
    if es.len() == 0 {
        s
    } else {
        apply_edits(apply_edit(s, es[0]), es.drop_first())
    }
}

/// Whether every edit of the script fits the sequence it meets.
pub open spec fn script_fits<A>(s: Seq<A>, es: Seq<Edit<A>>) -> bool
    decreases es.len(),
{
    es.len() == 0 || (edit_fits(s, es[0]) && script_fits(apply_edit(s, es[0]), es.drop_first()))
}

/// A script of `distance(a, b)` edits that turns `a` into `b`, following
/// the recurrence: delete the last element, or insert the target's last
/// element, or keep (or substitute) the last element.
pub open spec fn script<A>(a: Seq<A>, b: Seq<A>) -> Seq<Edit<A>>
    decreases a.len() + b.len(),
{
    if a.len() == 0 && b.len() == 0 {
        Seq::empty()
    } else if a.len() == 0 || (b.len() > 0 && distance(a, b) != distance(a.drop_last(), b) + 1
        && distance(a, b) == distance(a, b.drop_last()) + 1) {
        script(a, b.drop_last()).push(Edit::Insert(b.len() - 1, b.last()))
    } else if b.len() == 0 || distance(a, b) == distance(a.drop_last(), b) + 1 {
        seq![Edit::Delete(a.len() - 1)] + script(a.drop_last(), b)
    } else {
        script(a.drop_last(), b.drop_last()) + if a.last() == b.last() {
            Seq::empty()
        } else {
            seq![Edit::Substitute(b.len() - 1, b.last())]
        }
    }
}

proof fn lemma_apply_concat<A>(s: Seq<A>, e1: Seq<Edit<A>>, e2: Seq<Edit<A>>)
    ensures
        apply_edits(s, e1 + e2) == apply_edits(apply_edits(s, e1), e2),
        script_fits(s, e1) && script_fits(apply_edits(s, e1), e2) ==> script_fits(s, e1 + e2),
    decreases e1.len(),
{
    if e1.len() == 0 {
        assert(e1 + e2 =~= e2);
    } else {
        assert((e1 + e2)[0] == e1[0]);
        assert((e1 + e2).drop_first() =~= e1.drop_first() + e2);
        lemma_apply_concat(apply_edit(s, e1[0]), e1.drop_first(), e2);
    }
}

/// A script that fits `p` does the same to `p` with an element appended,
/// leaving that element last.
proof fn lemma_lift<A>(p: Seq<A>, x: A, es: Seq<Edit<A>>)
    requires
        script_fits(p, es),
    ensures
        script_fits(p.push(x), es),
        apply_edits(p.push(x), es) == apply_edits(p, es).push(x),
    decreases es.len(),
{
    if es.len() > 0 {
        let e = es[0];
        let q = apply_edit(p, e);
        match e {
            Edit::Insert(i, v) => {
                assert(p.push(x).insert(i, v) =~= p.insert(i, v).push(x));
            },
            Edit::Delete(i) => {
                assert(p.push(x).remove(i) =~= p.remove(i).push(x));
            },
            Edit::Substitute(i, v) => {
                assert(p.push(x).update(i, v) =~= p.update(i, v).push(x));
            },
        }
        assert(apply_edit(p.push(x), e) == q.push(x));
        lemma_lift(q, x, es.drop_first());
    }
}

/// The script does what it says, fits, and has `distance(a, b)` edits.
proof fn lemma_script<A>(a: Seq<A>, b: Seq<A>)
    ensures
        script_fits(a, script(a, b)),
        apply_edits(a, script(a, b)) == b,
        script(a, b).len() == distance(a, b),
    decreases a.len() + b.len(),
{
    if a.len() == 0 && b.len() == 0 {
        assert(a =~= b);
    } else if a.len() == 0 || (b.len() > 0 && distance(a, b) != distance(a.drop_last(), b) + 1
        && distance(a, b) == distance(a, b.drop_last()) + 1) {
        let bp = b.drop_last();
        let e1 = script(a, bp);
        let e2 = seq![Edit::Insert(b.len() - 1, b.last())];
        lemma_script(a, bp);
        lemma_apply_concat(a, e1, e2);
        assert(e2.drop_first() =~= Seq::<Edit<A>>::empty());
        assert(bp.insert(b.len() - 1, b.last()) =~= b);
        assert(apply_edit(bp, e2[0]) == b);
        assert(apply_edits(b, e2.drop_first()) == b);
        assert(script_fits(apply_edit(bp, e2[0]), e2.drop_first()));
        assert(script_fits(bp, e2));
        assert(e1.push(Edit::Insert(b.len() - 1, b.last())) =~= e1 + e2);
    } else if b.len() == 0 || distance(a, b) == distance(a.drop_last(), b) + 1 {
        let ap = a.drop_last();
        let e1 = seq![Edit::Delete(a.len() - 1)];
        let e2 = script(ap, b);
        lemma_script(ap, b);
        assert(a.remove(a.len() - 1) =~= ap);
        assert(e1.drop_first() =~= Seq::<Edit<A>>::empty());
        assert(e1[0] == Edit::<A>::Delete(a.len() - 1));
        assert(apply_edit(a, e1[0]) == ap);
        assert(apply_edits(ap, e1.drop_first()) == ap);
        assert(script_fits(ap, e1.drop_first()));
        assert(script_fits(a, e1));
        assert(apply_edits(a, e1) == ap);
        lemma_apply_concat(a, e1, e2);
    } else {
        let (ap, bp) = (a.drop_last(), b.drop_last());
        let e1 = script(ap, bp);
        lemma_script(ap, bp);
        lemma_lift(ap, a.last(), e1);
        assert(ap.push(a.last()) =~= a);
        assert(apply_edits(a, e1) == bp.push(a.last()));
        if a.last() == b.last() {
            assert(bp.push(a.last()) =~= b);
            assert(e1 + Seq::<Edit<A>>::empty() =~= e1);
        } else {
            let e2 = seq![Edit::Substitute(b.len() - 1, b.last())];
            assert(e2.drop_first() =~= Seq::<Edit<A>>::empty());
            assert(bp.push(a.last()).update(b.len() - 1, b.last()) =~= b);
            assert(apply_edit(bp.push(a.last()), e2[0]) == b);
            assert(apply_edits(b, e2.drop_first()) == b);
            assert(script_fits(b, e2.drop_first()));
            assert(script_fits(bp.push(a.last()), e2));
            lemma_apply_concat(a, e1, e2);
        }
    }
}

proof fn lemma_distance_lower_bound<A>(a: Seq<A>, b: Seq<A>)
    ensures
        distance(a, b) >= a.len() - b.len(),
        distance(a, b) >= b.len() - a.len(),
    decreases a.len() + b.len(),
{
    if a.len() > 0 && b.len() > 0 {
        lemma_distance_lower_bound(a.drop_last(), b);
        lemma_distance_lower_bound(a, b.drop_last());
        lemma_distance_lower_bound(a.drop_last(), b.drop_last());
    }
}

proof fn lemma_distance_upper_bound<A>(a: Seq<A>, b: Seq<A>)
    ensures
        distance(a, b) <= max2(a.len() as int, b.len() as int),
    decreases a.len() + b.len(),
{
    if a.len() > 0 && b.len() > 0 {
        lemma_distance_upper_bound(a.drop_last(), b.drop_last());
    }
}

/// The triangle inequality.
proof fn lemma_distance_triangle<A>(a: Seq<A>, b: Seq<A>, c: Seq<A>)
    ensures
        distance(a, c) <= distance(a, b) + distance(b, c),
    decreases a.len() + b.len() + c.len(),
{
    if b.len() == 0 {
        lemma_distance_upper_bound(a, c);
    } else if a.len() == 0 {
        lemma_distance_lower_bound(b, c);
    } else if c.len() == 0 {
        lemma_distance_lower_bound(a, b);
    } else {
        let (ap, bp, cp) = (a.drop_last(), b.drop_last(), c.drop_last());
        let dab = distance(a, b);
        let dbc = distance(b, c);
        if dab == distance(ap, b) + 1 {
            lemma_distance_triangle(ap, b, c);
        } else if dbc == distance(b, cp) + 1 {
            lemma_distance_triangle(a, b, cp);
        } else if dab == distance(a, bp) + 1 {
            if dbc == distance(bp, c) + 1 {
                lemma_distance_triangle(a, bp, c);
            } else {
                lemma_distance_triangle(a, bp, cp);
            }
        } else {
            if dbc == distance(bp, c) + 1 {
                lemma_distance_triangle(ap, bp, c);
            } else {
                lemma_distance_triangle(ap, bp, cp);
            }
        }
    }
}

/// One edit moves a sequence at most one step away.
proof fn lemma_one_edit<A>(s: Seq<A>, e: Edit<A>)
    ensures
        distance(s, apply_edit(s, e)) <= 1,
    decreases s.len(),
{
    let t = apply_edit(s, e);
    lemma_distance_self(s);
    if !edit_fits(s, e) {
    } else if s.len() == 0 {
        if let Edit::Insert(i, v) = e {
            assert(t.len() == 1);
        }
    } else {
        let sp = s.drop_last();
        lemma_distance_self(sp);
        match e {
            Edit::Insert(i, v) => {
                if i == s.len() {
                    assert(t.drop_last() =~= s);
                } else {
                    assert(t.last() == s.last());
                    assert(t.drop_last() =~= sp.insert(i, v));
                    lemma_one_edit(sp, e);
                }
            },
            Edit::Delete(i) => {
                if i == s.len() - 1 {
                    assert(t =~= sp);
                    if t.len() > 0 {
                        assert(distance(s, t) <= distance(sp, t) + 1);
                    }
                } else {
                    assert(t.last() == s.last());
                    assert(t.drop_last() =~= sp.remove(i));
                    lemma_one_edit(sp, e);
                }
            },
            Edit::Substitute(i, v) => {
                assert(t.len() == s.len());
                if i == s.len() - 1 {
                    assert(t.drop_last() =~= sp);
                } else {
                    assert(t.last() == s.last());
                    assert(t.drop_last() =~= sp.update(i, v));
                    lemma_one_edit(sp, e);
                }
            },
        }
    }
}

/// No script shorter than the distance turns `a` into `b`.
proof fn lemma_script_at_least<A>(a: Seq<A>, b: Seq<A>, es: Seq<Edit<A>>)
    requires
        apply_edits(a, es) == b,
    ensures
        distance(a, b) <= es.len(),
    decreases es.len(),
{
    if es.len() == 0 {
        lemma_distance_self(a);
    } else {
        let m = apply_edit(a, es[0]);
        lemma_script_at_least(m, b, es.drop_first());
        lemma_one_edit(a, es[0]);
        lemma_distance_triangle(a, m, b);
    }
}

/// The distance is the least number of edits that turn `a` into `b`: a
/// script of that many edits exists, and every script that does it has at
/// least that many.
pub proof fn lemma_distance_is_least_edits<A>(a: Seq<A>, b: Seq<A>)
    ensures
        script_fits(a, script(a, b)) && apply_edits(a, script(a, b)) == b && script(a, b).len()
            == distance(a, b),
        forall|es: Seq<Edit<A>>| #[trigger] apply_edits(a, es) == b ==> distance(a, b) <= es.len(),
{
    lemma_script(a, b);
    assert forall|es: Seq<Edit<A>>| #[trigger] apply_edits(a, es) == b implies distance(a, b)
        <= es.len() by {
        lemma_script_at_least(a, b, es);
    }
}


/// What `levenshtein` returns, for elements whose `==` is equality, is the
/// least number of single-element insertions, deletions and substitutions
/// that turn `a` into `b`.
pub proof fn lemma_levenshtein_is_least_edits<T: PartialEq>(a: Seq<T>, b: Seq<T>)
    requires
        forall|x: T, y: T| #[trigger] x.eq_spec(&y) == (x == y),
    ensures
        script_fits(a, script(a, b)) && apply_edits(a, script(a, b)) == b && script(a, b).len()
            == edit_distance(a, b),
        forall|es: Seq<Edit<T>>| #[trigger] apply_edits(a, es) == b ==> edit_distance(a, b) <= es.len(),
{
    lemma_edit_distance_is_distance(a, b);
    lemma_distance_is_least_edits(a, b);
}

} // verus!
