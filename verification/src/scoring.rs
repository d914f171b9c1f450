//! The counts behind the evaluation's error rates: word and character edit
//! distances, wrong sentences, and whether a clip was transcribed right.
//! The rates themselves are these counts divided, in floating point, by the
//! caller.
use vstd::prelude::*;
use vstd::std_specs::cmp::PartialEqSpec;

use crate::metrics::{edit_distance, levenshtein, min3};
use crate::text::{
    ascii_lower, chars_of, eq_chars, is_white_space, non_empty, split_ws, to_ascii_lowercase, trim,
    trim_chars, views, words, words_of,
};

verus! {

/// The Levenshtein distance between two sequences whose elements are
/// compared by equality.
pub open spec fn distance<A>(a: Seq<A>, b: Seq<A>) -> int
    decreases a.len() + b.len(),
{
    if a.len() == 0 {
        b.len() as int
    } else if b.len() == 0 {
        a.len() as int
    } else {
        let cost: int = if a.last() == b.last() {
            0
        } else {
            1
        };
        min3(
            distance(a.drop_last(), b) + 1,
            distance(a, b.drop_last()) + 1,
            distance(a.drop_last(), b.drop_last()) + cost,
        )
    }
}

/// `x` and `y` are `a` and `b` relabelled: two labels are equal exactly
/// when the elements they stand for are.
pub open spec fn same_pattern<A, B>(a: Seq<A>, b: Seq<A>, x: Seq<B>, y: Seq<B>) -> bool {
    &&& x.len() == a.len()
    &&& y.len() == b.len()
    &&& forall|i: int, j: int|
        0 <= i < a.len() && 0 <= j < b.len() ==> ((#[trigger] x[i] == #[trigger] y[j]) <==> (a[i]
            == b[j]))
}

/// Relabelling keeps the distance.
proof fn lemma_relabel<A, B>(a: Seq<A>, b: Seq<A>, x: Seq<B>, y: Seq<B>)
    requires
        same_pattern(a, b, x, y),
    ensures
        distance(x, y) == distance(a, b),
    decreases a.len() + b.len(),
{
    if a.len() > 0 && b.len() > 0 {
        assert(same_pattern(a.drop_last(), b, x.drop_last(), y)) by {
            assert forall|i: int, j: int|
                0 <= i < a.drop_last().len() && 0 <= j < b.len() implies ((
                #[trigger] x.drop_last()[i] == #[trigger] y[j]) <==> (a.drop_last()[i] == b[j])) by {
                assert(x.drop_last()[i] == x[i]);
                assert(a.drop_last()[i] == a[i]);
            }
        }
        assert(same_pattern(a, b.drop_last(), x, y.drop_last())) by {
            assert forall|i: int, j: int|
                0 <= i < a.len() && 0 <= j < b.drop_last().len() implies ((#[trigger] x[i]
                == #[trigger] y.drop_last()[j]) <==> (a[i] == b.drop_last()[j])) by {
                assert(y.drop_last()[j] == y[j]);
                assert(b.drop_last()[j] == b[j]);
            }
        }
        assert(same_pattern(a.drop_last(), b.drop_last(), x.drop_last(), y.drop_last())) by {
            assert forall|i: int, j: int|
                0 <= i < a.drop_last().len() && 0 <= j < b.drop_last().len() implies ((
                #[trigger] x.drop_last()[i] == #[trigger] y.drop_last()[j]) <==> (a.drop_last()[i]
                == b.drop_last()[j])) by {
                assert(x.drop_last()[i] == x[i]);
                assert(a.drop_last()[i] == a[i]);
                assert(y.drop_last()[j] == y[j]);
                assert(b.drop_last()[j] == b[j]);
            }
        }
        lemma_relabel(a.drop_last(), b, x.drop_last(), y);
        lemma_relabel(a, b.drop_last(), x, y.drop_last());
        lemma_relabel(a.drop_last(), b.drop_last(), x.drop_last(), y.drop_last());
        assert((x[x.len() - 1] == y[y.len() - 1]) <==> (a[a.len() - 1] == b[b.len() - 1]));
    }
}

/// A sequence is at distance zero from itself: a transcript identical to
/// its reference has no errors.
pub proof fn lemma_distance_self<A>(a: Seq<A>)
    ensures
        distance(a, a) == 0,
    decreases a.len(),
{
    if a.len() > 0 {
        lemma_distance_self(a.drop_last());
        lemma_distance_nonneg(a.drop_last(), a);
        lemma_distance_nonneg(a, a.drop_last());
    }
}

proof fn lemma_distance_nonneg<A>(a: Seq<A>, b: Seq<A>)
    ensures
        distance(a, b) >= 0,
    decreases a.len() + b.len(),
{
    if a.len() > 0 && b.len() > 0 {
        lemma_distance_nonneg(a.drop_last(), b);
        lemma_distance_nonneg(a, b.drop_last());
        lemma_distance_nonneg(a.drop_last(), b.drop_last());
    }
}

/// Where the elements' `==` is equality, `metrics::edit_distance` is this
/// distance: both are the same Levenshtein recurrence.
pub proof fn lemma_edit_distance_is_distance<T: PartialEq>(a: Seq<T>, b: Seq<T>)
    requires
        forall|x: T, y: T| #[trigger] x.eq_spec(&y) == (x == y),
    ensures
        edit_distance(a, b) == distance(a, b),
    decreases a.len() + b.len(),
{
    if a.len() > 0 && b.len() > 0 {
        lemma_edit_distance_is_distance(a.drop_last(), b);
        lemma_edit_distance_is_distance(a, b.drop_last());
        lemma_edit_distance_is_distance(a.drop_last(), b.drop_last());
        assert(a.last().eq_spec(&b.last()) == (a.last() == b.last()));
    }
}

/// No two entries are equal.
pub open spec fn distinct(s: Seq<Seq<char>>) -> bool {
    forall|i: int, j: int| 0 <= i < j < s.len() ==> #[trigger] s[i] != #[trigger] s[j]
}

/// The index of `w` in the dictionary, which it is added to when absent.
fn word_id(dict: &mut Vec<Vec<char>>, w: &Vec<char>) -> (id: usize)
    requires
        distinct(views(old(dict)@)),
    ensures
        distinct(views(final(dict)@)),
        id < final(dict)@.len(),
        views(final(dict)@)[id as int] == w@,
        old(dict)@.len() <= final(dict)@.len() <= old(dict)@.len() + 1,
        views(final(dict)@).take(old(dict)@.len() as int) == views(old(dict)@),
{
    let mut i: usize = 0;
    while i < dict.len()
        invariant
            i <= dict@.len(),
            dict@ == old(dict)@,
            distinct(views(old(dict)@)),
            forall|k: int| 0 <= k < i ==> views(dict@)[k] != w@,
        decreases dict.len() - i,
    {
        assert(views(dict@)[i as int] == dict@[i as int]@);
        if eq_chars(dict[i].as_slice(), w.as_slice()) {
            assert(views(dict@).take(dict@.len() as int) =~= views(dict@));
            return i;
        }
        i = i + 1;
    }
    let id = dict.len();
    let ghost before = views(dict@);
    dict.push(w.clone());
    assert(views(dict@) =~= before.push(w@));
    assert(views(dict@).take(before.len() as int) =~= before);
    id
}

/// The dictionary indices of `ws`, adding unseen words to the dictionary.
fn ids_of(ws: &Vec<Vec<char>>, dict: &mut Vec<Vec<char>>) -> (ids: Vec<usize>)
    requires
        distinct(views(old(dict)@)),
    ensures
        distinct(views(final(dict)@)),
        ids@.len() == ws@.len(),
        forall|i: int|
            0 <= i < ws@.len() ==> #[trigger] ids@[i] < final(dict)@.len() && views(
                final(dict)@,
            )[ids@[i] as int] == ws@[i]@,
        old(dict)@.len() <= final(dict)@.len(),
        views(final(dict)@).take(old(dict)@.len() as int) == views(old(dict)@),
{
    let mut ids: Vec<usize> = Vec::new();
    let mut k: usize = 0;
    while k < ws.len()
        invariant
            k <= ws@.len(),
            ids@.len() == k,
            distinct(views(dict@)),
            old(dict)@.len() <= dict@.len(),
            views(dict@).take(old(dict)@.len() as int) == views(old(dict)@),
            forall|i: int|
                0 <= i < k ==> #[trigger] ids@[i] < dict@.len() && views(dict@)[ids@[i] as int]
                    == ws@[i]@,
        decreases ws.len() - k,
    {
        let ghost before = views(dict@);
        let id = word_id(dict, &ws[k]);
        proof {
            assert forall|i: int| 0 <= i < k implies #[trigger] ids@[i] < dict@.len() && views(
                dict@,
            )[ids@[i] as int] == ws@[i]@ by {
                assert(views(dict@).take(before.len() as int)[ids@[i] as int] == before[ids@[i] as int]);
            }
            assert(views(dict@).take(old(dict)@.len() as int) =~= views(dict@).take(
                before.len() as int,
            ).take(old(dict)@.len() as int));
        }
        ids.push(id);
        k = k + 1;
    }
    ids
}

/// The word-level edit distance of a transcript and the number of
/// reference words: the numerator and denominator of the word error rate.
pub fn word_errors(reference: &str, hypothesis: &str) -> (r: (usize, usize))
    requires
        reference@.len() < usize::MAX,
        hypothesis@.len() < usize::MAX,
    ensures
        r.0 == distance(words(reference@), words(hypothesis@)),
        r.1 == words(reference@).len(),
{
    let rc = chars_of(reference);
    let hc = chars_of(hypothesis);
    let rw = words_of(rc.as_slice());
    let hw = words_of(hc.as_slice());
    proof {
        lemma_words_len(reference@);
        lemma_words_len(hypothesis@);
    }
    let mut dict: Vec<Vec<char>> = Vec::new();
    assert(views(dict@) =~= Seq::<Seq<char>>::empty());
    let ra = ids_of(&rw, &mut dict);
    let ghost first = views(dict@);
    let hb = ids_of(&hw, &mut dict);
    proof {
        let d = views(dict@);
        assert forall|i: int| 0 <= i < rw@.len() implies #[trigger] ra@[i] < d.len() && d[ra@[i] as int] == rw@[i]@ by {
            assert(d.take(first.len() as int)[ra@[i] as int] == first[ra@[i] as int]);
        }
        assert(same_pattern(words(reference@), words(hypothesis@), ra@, hb@)) by {
            assert forall|i: int, j: int|
                0 <= i < words(reference@).len() && 0 <= j < words(hypothesis@).len() implies ((
                #[trigger] ra@[i] == #[trigger] hb@[j]) <==> (words(reference@)[i] == words(
                hypothesis@,
            )[j])) by {
                assert(views(rw@)[i] == rw@[i]@);
                assert(views(hw@)[j] == hw@[j]@);
                assert(d[ra@[i] as int] == rw@[i]@);
                assert(d[hb@[j] as int] == hw@[j]@);
                if rw@[i]@ == hw@[j]@ && ra@[i] != hb@[j] {
                    if ra@[i] < hb@[j] {
                        assert(d[ra@[i] as int] != d[hb@[j] as int]);
                    } else {
                        assert(d[hb@[j] as int] != d[ra@[i] as int]);
                    }
                }
            }
        }
        lemma_relabel(words(reference@), words(hypothesis@), ra@, hb@);
        lemma_edit_distance_is_distance(ra@, hb@);
    }
    let dist = levenshtein(ra.as_slice(), hb.as_slice());
    (dist, rw.len())
}

/// The character-level edit distance of a transcript and the number of
/// reference characters: the numerator and denominator of the character
/// error rate.
pub fn char_errors(reference: &str, hypothesis: &str) -> (r: (usize, usize))
    requires
        reference@.len() < usize::MAX,
        hypothesis@.len() < usize::MAX,
    ensures
        r.0 == distance(reference@, hypothesis@),
        r.1 == reference@.len(),
{
    let rc = chars_of(reference);
    let hc = chars_of(hypothesis);
    let ra = codes(rc.as_slice());
    let hb = codes(hc.as_slice());
    proof {
        assert forall|i: int, j: int|
            0 <= i < reference@.len() && 0 <= j < hypothesis@.len() implies ((#[trigger] ra@[i]
            == #[trigger] hb@[j]) <==> (reference@[i] == hypothesis@[j])) by {
            let c = reference@[i];
            let d = hypothesis@[j];
            assert(ra@[i] == c as u32);
            assert(hb@[j] == d as u32);
            vstd::utf8::char_u32_cast(c, c as u32);
            vstd::utf8::char_u32_cast(d, d as u32);
        }
        assert(same_pattern(reference@, hypothesis@, ra@, hb@));
        lemma_relabel(reference@, hypothesis@, ra@, hb@);
        lemma_edit_distance_is_distance(ra@, hb@);
    }
    let dist = levenshtein(ra.as_slice(), hb.as_slice());
    (dist, rc.len())
}

/// The code point of each character.
fn codes(s: &[char]) -> (r: Vec<u32>)
    ensures
        r@.len() == s@.len(),
        forall|i: int| 0 <= i < s@.len() ==> #[trigger] r@[i] == s@[i] as u32,
{
    let mut out: Vec<u32> = Vec::new();
    let mut i: usize = 0;
    while i < s.len()
        invariant
            i <= s@.len(),
            out@.len() == i,
            forall|k: int| 0 <= k < i ==> #[trigger] out@[k] == s@[k] as u32,
        decreases s.len() - i,
    {
        out.push(s[i] as u32);
        i = i + 1;
    }
    out
}

/// A string has no more words than characters.
proof fn lemma_words_len(s: Seq<char>)
    ensures
        words(s).len() <= s.len(),
        words(s).len() + (if split_ws(s).last().len() == 0 {
            1int
        } else {
            0
        }) <= s.len() + 1,
    decreases s.len(),
{
    lemma_split_ws_len(s);
    if s.len() == 0 {
        let e = Seq::<char>::empty();
        assert(split_ws(s) == seq![e]);
        assert(seq![e].drop_last() =~= Seq::<Seq<char>>::empty());
        assert(non_empty(seq![e].drop_last()).len() == 0);
        assert(non_empty(seq![e]) == non_empty(seq![e].drop_last()));
        assert(words(s).len() == 0);
    } else {
        let p = split_ws(s.drop_last());
        lemma_words_len(s.drop_last());
        lemma_split_ws_len(s.drop_last());
        let w0 = non_empty(p).len();
        assert(words(s.drop_last()).len() == w0);
        let pd = non_empty(p.drop_last()).len();
        assert(w0 == pd + (if p.last().len() > 0 {
            1int
        } else {
            0
        }));
        if is_white_space(s.last()) {
            let q = p.push(Seq::<char>::empty());
            assert(split_ws(s) == q);
            assert(q.drop_last() =~= p);
            assert(non_empty(q) == non_empty(q.drop_last()));
            assert(words(s).len() == w0);
            assert(split_ws(s).last().len() == 0);
        } else {
            let q = p.update(p.len() - 1, p.last().push(s.last()));
            assert(split_ws(s) == q);
            assert(q.drop_last() =~= p.drop_last());
            assert(q.last().len() > 0);
            assert(non_empty(q) == non_empty(q.drop_last()).push(q.last()));
            assert(words(s).len() == pd + 1);
        }
    }
}

proof fn lemma_split_ws_len(s: Seq<char>)
    ensures
        split_ws(s).len() >= 1,
    decreases s.len(),
{
    if s.len() > 0 {
        lemma_split_ws_len(s.drop_last());
    }
}

/// A sentence pair by its text.
pub open spec fn pair_view(p: (&str, &str)) -> (Seq<char>, Seq<char>) {
    (p.0@, p.1@)
}

/// The number of pairs whose reference and hypothesis differ once trimmed.
pub open spec fn wrong_sentences(pairs: Seq<(Seq<char>, Seq<char>)>) -> nat
    decreases pairs.len(),
{
    if pairs.len() == 0 {
        0
    } else {
        wrong_sentences(pairs.drop_last()) + if trim(pairs.last().0) != trim(pairs.last().1) {
            1nat
        } else {
            0nat
        }
    }
}

/// The number of wrong sentences among `(reference, hypothesis)` pairs: the
/// numerator of the sentence error rate.
pub fn sentence_errors(pairs: &[(&str, &str)]) -> (r: usize)
    ensures
        r == wrong_sentences(pairs@.map_values(|p: (&str, &str)| pair_view(p))),
{
    let ghost all = pairs@.map_values(|p: (&str, &str)| pair_view(p));
    let mut wrong: usize = 0;
    let mut i: usize = 0;
    while i < pairs.len()
        invariant
            i <= pairs@.len(),
            all == pairs@.map_values(|p: (&str, &str)| pair_view(p)),
            wrong == wrong_sentences(all.take(i as int)),
            wrong <= i,
        decreases pairs.len() - i,
    {
        let (r, h) = pairs[i];
        let rt = trim_chars(chars_of(r).as_slice());
        let ht = trim_chars(chars_of(h).as_slice());
        assert(all.take(i + 1).drop_last() =~= all.take(i as int));
        assert(all.take(i + 1).last() == pair_view(pairs@[i as int]));
        if !eq_chars(rt.as_slice(), ht.as_slice()) {
            wrong = wrong + 1;
        }
        i = i + 1;
    }
    assert(all.take(pairs.len() as int) =~= all);
    wrong
}

/// ASCII lower-casing of every character of a sequence.
pub open spec fn lower_all(s: Seq<char>) -> Seq<char> {
    s.map_values(|c: char| ascii_lower(c))
}

/// Whether a clip counts as transcribed right: the trimmed transcript equals
/// the trimmed reference up to ASCII case.
pub fn clip_correct(hypothesis: &str, reference: &str) -> (r: bool)
    ensures
        r == (lower_all(trim(hypothesis@)) == lower_all(trim(reference@))),
{
    let h = trim_chars(chars_of(hypothesis).as_slice());
    let r = trim_chars(chars_of(reference).as_slice());
    let hl = to_ascii_lowercase(h.as_slice());
    let rl = to_ascii_lowercase(r.as_slice());
    eq_chars(hl.as_slice(), rl.as_slice())
}

} // verus!
