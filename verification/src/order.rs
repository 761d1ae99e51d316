//! The order of texts, and a stable sort for whatever is ranked.

use crate::text::chars_of;
use vstd::prelude::*;

verus! {

/// The dictionary order of texts by the code points of their characters.
pub open spec fn text_before(a: Seq<char>, b: Seq<char>) -> bool
    decreases a.len(),
{
    if b.len() == 0 {
        false
    } else if a.len() == 0 {
        true
    } else if a[0] != b[0] {
        (a[0] as int) < (b[0] as int)
    } else {
        text_before(a.skip(1), b.skip(1))
    }
}

/// Whether a text comes before another.
pub fn is_text_before(a: &str, b: &str) -> (r: bool)
    ensures
        r == text_before(a@, b@),
{
    let x = chars_of(a);
    let y = chars_of(b);
    let mut i: usize = 0;
    proof {
        assert(a@.skip(0) =~= a@);
        assert(b@.skip(0) =~= b@);
    }
    while i < x.len() && i < y.len()
        invariant
            i <= x@.len(),
            i <= y@.len(),
            x@ == a@,
            y@ == b@,
            text_before(a@, b@) == text_before(a@.skip(i as int), b@.skip(i as int)),
        decreases x@.len() - i,
    {
        if x[i] != y[i] {
            return x[i] < y[i];
        }
        proof {
            assert(a@.skip(i as int).skip(1) =~= a@.skip(i + 1));
            assert(b@.skip(i as int).skip(1) =~= b@.skip(i + 1));
        }
        i += 1;
    }
    i < y.len()
}

/// No text comes before itself, and of two texts at most one comes first.
pub proof fn lemma_text_before_asymmetric(a: Seq<char>, b: Seq<char>)
    ensures
        text_before(a, b) ==> !text_before(b, a),
    decreases a.len(),
{
    if a.len() > 0 && b.len() > 0 && a[0] == b[0] {
        lemma_text_before_asymmetric(a.skip(1), b.skip(1));
    }
}

/// Two texts of which neither comes before the other are the same.
pub proof fn lemma_text_before_total(a: Seq<char>, b: Seq<char>)
    requires
        !text_before(a, b),
        !text_before(b, a),
    ensures
        a == b,
    decreases a.len(),
{
    if a.len() > 0 && b.len() > 0 {
        lemma_text_before_total(a.skip(1), b.skip(1));
        assert(a =~= seq![a[0]] + a.skip(1));
        assert(b =~= seq![b[0]] + b.skip(1));
    } else {
        assert(a =~= b);
    }
}

/// A text before another leaves no room between them: any third text comes
/// behind the first or before the second.
pub proof fn lemma_text_before_splits(a: Seq<char>, b: Seq<char>, c: Seq<char>)
    requires
        text_before(a, c),
    ensures
        text_before(a, b) || text_before(b, c),
    decreases a.len(),
{
    if a.len() > 0 && b.len() > 0 && c.len() > 0 && a[0] == b[0] && b[0] == c[0] {
        lemma_text_before_splits(a.skip(1), b.skip(1), c.skip(1));
    }
}

/// An order in which values are listed; some may rank equally.
pub trait Ranking<T> {
    /// Whether `a` is listed before `b`.
    spec fn before(a: &T, b: &T) -> bool;

    fn is_before(a: &T, b: &T) -> (r: bool)
        ensures
            r == Self::before(a, b),
    ;

    proof fn lemma_asymmetric(a: &T, b: &T)
        ensures
            Self::before(a, b) ==> !Self::before(b, a),
    ;

    proof fn lemma_splits(a: &T, middle: &T, b: &T)
        requires
            Self::before(a, b),
        ensures
            Self::before(a, middle) || Self::before(middle, b),
    ;
}

/// `s` with `x` put behind everything that is not listed after it.
pub open spec fn insert_ranked<T, R: Ranking<T>>(s: Seq<T>, x: T) -> Seq<T>
    decreases s.len(),
{
    if s.len() > 0 && R::before(&x, &s.last()) {
        insert_ranked::<T, R>(s.drop_last(), x).push(s.last())
    } else {
        s.push(x)
    }
}

/// The stable sort of `s`.
pub open spec fn stable_sorted<T, R: Ranking<T>>(s: Seq<T>) -> Seq<T>
    decreases s.len(),
{
    if s.len() == 0 {
        s
    } else {
        insert_ranked::<T, R>(stable_sorted::<T, R>(s.drop_last()), s.last())
    }
}

/// Whether nothing stands behind something that is listed after it.
pub open spec fn is_ordered<T, R: Ranking<T>>(s: Seq<T>) -> bool {
    forall|i: int, j: int|
        #![trigger s[i], s[j]]
        0 <= i < j < s.len() ==> !R::before(&s[j], &s[i])
}

proof fn lemma_insert_is_insert<T, R: Ranking<T>>(s: Seq<T>, x: T, p: int)
    requires
        0 <= p <= s.len(),
        p > 0 ==> !R::before(&x, &s[p - 1]),
        forall|k: int| p <= k < s.len() ==> R::before(&x, &#[trigger] s[k]),
    ensures
        insert_ranked::<T, R>(s, x) == s.insert(p, x),
    decreases s.len(),
{
    if p < s.len() {
        lemma_insert_is_insert::<T, R>(s.drop_last(), x, p);
        assert(s.drop_last().insert(p, x).push(s.last()) =~= s.insert(p, x));
    } else {
        assert(s.insert(p, x) =~= s.push(x));
    }
}

/// Sorts the values; those that rank equally stay in the order they came in.
pub fn stable_sort<T, R: Ranking<T>>(values: Vec<T>) -> (r: Vec<T>)
    ensures
        r@ == stable_sorted::<T, R>(values@),
{
    let ghost input = values@;
    let mut out: Vec<T> = Vec::new();
    for x in it: values
        invariant
            it.seq() == input,
            out@ == stable_sorted::<T, R>(it.seq().take(it.index())),
    {
        let mut p: usize = out.len();
        while p > 0 && R::is_before(&x, &out[p - 1])
            invariant
                p <= out@.len(),
                forall|k: int| p <= k < out@.len() ==> R::before(&x, &#[trigger] out@[k]),
            decreases p,
        {
            p -= 1;
        }
        proof {
            lemma_insert_is_insert::<T, R>(out@, x, p as int);
            let k = it.index();
            assert(input.take(k + 1).drop_last() =~= input.take(k));
        }
        out.insert(p, x);
    }
    proof {
        assert(input.take(input.len() as int) =~= input);
    }
    out
}

proof fn lemma_insert_ordered<T, R: Ranking<T>>(s: Seq<T>, x: T)
    requires
        is_ordered::<T, R>(s),
    ensures
        is_ordered::<T, R>(insert_ranked::<T, R>(s, x)),
        insert_ranked::<T, R>(s, x).to_multiset() == s.to_multiset().insert(x),
        insert_ranked::<T, R>(s, x).len() == s.len() + 1,
    decreases s.len(),
{
    broadcast use vstd::seq_lib::group_to_multiset_ensures;

    if s.len() > 0 && R::before(&x, &s.last()) {
        lemma_insert_ordered::<T, R>(s.drop_last(), x);
        let t = insert_ranked::<T, R>(s.drop_last(), x);
        let r = t.push(s.last());
        assert(s =~= s.drop_last().push(s.last()));
        assert forall|i: int, j: int|
            #![trigger r[i], r[j]]
            0 <= i < j < r.len() implies !R::before(&r[j], &r[i]) by {
            if j == t.len() {
                assert(t.to_multiset().count(t[i]) > 0) by {
                    assert(t.contains(t[i]));
                }
                if t[i] != x {
                    assert(s.drop_last().to_multiset().count(t[i]) > 0);
                    assert(s.drop_last().contains(t[i]));
                    let k = choose|k: int| 0 <= k < s.len() - 1 && s.drop_last()[k] == t[i];
                    assert(!R::before(&s[s.len() - 1], &s[k]));
                } else {
                    R::lemma_asymmetric(&x, &s.last());
                }
            }
        }
        assert(r.to_multiset() =~= s.to_multiset().insert(x));
    } else {
        let r = s.push(x);
        assert forall|i: int, j: int|
            #![trigger r[i], r[j]]
            0 <= i < j < r.len() implies !R::before(&r[j], &r[i]) by {
            if j == s.len() && R::before(&x, &s[i]) {
                if i < s.len() - 1 {
                    R::lemma_splits(&x, &s.last(), &s[i]);
                    assert(!R::before(&s[s.len() - 1], &s[i]));
                }
            }
        }
        assert(r.to_multiset() =~= s.to_multiset().insert(x));
    }
}

/// A sorted list is in order and holds exactly the values it was made from.
pub proof fn law_stable_sorted_is_ordered_permutation<T, R: Ranking<T>>(s: Seq<T>)
    ensures
        is_ordered::<T, R>(stable_sorted::<T, R>(s)),
        stable_sorted::<T, R>(s).to_multiset() == s.to_multiset(),
        stable_sorted::<T, R>(s).len() == s.len(),
    decreases s.len(),
{
    broadcast use vstd::seq_lib::group_to_multiset_ensures;

    if s.len() > 0 {
        law_stable_sorted_is_ordered_permutation::<T, R>(s.drop_last());
        lemma_insert_ordered::<T, R>(stable_sorted::<T, R>(s.drop_last()), s.last());
        assert(s =~= s.drop_last().push(s.last()));
    }
}

/// Whether two values rank equally.
pub open spec fn rank_equally<T, R: Ranking<T>>(a: T, b: T) -> bool {
    !R::before(&a, &b) && !R::before(&b, &a)
}

/// The values of `s` that rank equally with `x`, in their order.
pub open spec fn equals_of<T, R: Ranking<T>>(s: Seq<T>, x: T) -> Seq<T>
    decreases s.len(),
{
    if s.len() == 0 {
        s
    } else if rank_equally::<T, R>(s.last(), x) {
        equals_of::<T, R>(s.drop_last(), x).push(s.last())
    } else {
        equals_of::<T, R>(s.drop_last(), x)
    }
}

proof fn lemma_insert_keeps_equals<T, R: Ranking<T>>(s: Seq<T>, y: T, x: T)
    requires
        is_ordered::<T, R>(s),
    ensures
        equals_of::<T, R>(insert_ranked::<T, R>(s, y), x) == (if rank_equally::<T, R>(y, x) {
            equals_of::<T, R>(s, x).push(y)
        } else {
            equals_of::<T, R>(s, x)
        }),
    decreases s.len(),
{
    if s.len() > 0 && R::before(&y, &s.last()) {
        lemma_insert_keeps_equals::<T, R>(s.drop_last(), y, x);
        let t = insert_ranked::<T, R>(s.drop_last(), y);
        assert(t.push(s.last()).drop_last() =~= t);
        if rank_equally::<T, R>(y, x) && rank_equally::<T, R>(s.last(), x) {
            R::lemma_splits(&y, &x, &s.last());
        }
    } else {
        assert(s.push(y).drop_last() =~= s);
    }
}

/// Sorting is stable: the values of one rank come out in the order in which
/// they went in.
pub proof fn law_stable_sorted_is_stable<T, R: Ranking<T>>(s: Seq<T>, x: T)
    ensures
        equals_of::<T, R>(stable_sorted::<T, R>(s), x) == equals_of::<T, R>(s, x),
    decreases s.len(),
{
    if s.len() > 0 {
        law_stable_sorted_is_stable::<T, R>(s.drop_last(), x);
        law_stable_sorted_is_ordered_permutation::<T, R>(s.drop_last());
        lemma_insert_keeps_equals::<T, R>(stable_sorted::<T, R>(s.drop_last()), s.last(), x);
    }
}

} // verus!
