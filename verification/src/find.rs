//! First-match search over sequences, the lookup discipline both the
//! destination-platform model and the store model share: scans return the
//! first element satisfying a predicate, and repairs reason about how that
//! first match moves when elements are appended.

use vstd::prelude::*;

verus! {

/// Index of the first element of `s` satisfying `p`, or `-1`.
pub open spec fn find_first<T>(s: Seq<T>, p: spec_fn(T) -> bool) -> int
    decreases s.len(),
{
    if s.len() == 0 {
        -1
    } else if p(s[0]) {
        0
    } else {
        let r = find_first(s.drop_first(), p);
        if r < 0 {
            -1
        } else {
            r + 1
        }
    }
}

/// What a non-negative result means: a match there, and none before it.
pub proof fn lemma_find_first_props<T>(s: Seq<T>, p: spec_fn(T) -> bool)
    ensures
        find_first(s, p) == -1 ==> forall|i: int| 0 <= i < s.len() ==> !p(#[trigger] s[i]),
        find_first(s, p) >= 0 ==> find_first(s, p) < s.len() && p(s[find_first(s, p)]) && (forall|
            i: int,
        |
            0 <= i < find_first(s, p) ==> !p(#[trigger] s[i])),
    decreases s.len(),
{
    if s.len() > 0 && !p(s[0]) {
        lemma_find_first_props(s.drop_first(), p);
        assert(forall|i: int|
            1 <= i < s.len() ==> #[trigger] s[i] == s.drop_first()[i - 1]);
    }
}

/// A position that matches with no match before it is the first match.
pub proof fn lemma_find_first_is<T>(s: Seq<T>, p: spec_fn(T) -> bool, i: int)
    requires
        0 <= i < s.len(),
        p(s[i]),
        forall|k: int| 0 <= k < i ==> !p(#[trigger] s[k]),
    ensures
        find_first(s, p) == i,
    decreases s.len(),
{
    if i == 0 {
    } else {
        assert(!p(s[0]));
        assert(forall|k: int|
            1 <= k < s.len() ==> #[trigger] s.drop_first()[k - 1] == s[k]);
        lemma_find_first_is(s.drop_first(), p, i - 1);
    }
}

/// With no match anywhere the search comes back empty.
pub proof fn lemma_find_first_none<T>(s: Seq<T>, p: spec_fn(T) -> bool)
    requires
        forall|k: int| 0 <= k < s.len() ==> !p(#[trigger] s[k]),
    ensures
        find_first(s, p) == -1,
    decreases s.len(),
{
    if s.len() > 0 {
        assert(forall|k: int|
            0 <= k < s.len() - 1 ==> #[trigger] s.drop_first()[k] == s[k + 1]);
        lemma_find_first_none(s.drop_first(), p);
    }
}

/// Appending elements never moves an existing first match, and a fruitless
/// search resumes in the appended part.
pub proof fn lemma_find_first_push<T>(s: Seq<T>, p: spec_fn(T) -> bool, x: T)
    ensures
        find_first(s, p) >= 0 ==> find_first(s.push(x), p) == find_first(s, p),
        find_first(s, p) == -1 && p(x) ==> find_first(s.push(x), p) == s.len(),
        find_first(s, p) == -1 && !p(x) ==> find_first(s.push(x), p) == -1,
{
    lemma_find_first_props(s, p);
    let f = find_first(s, p);
    if f >= 0 {
        assert(s.push(x)[f] == s[f]);
        assert(forall|k: int| 0 <= k < f ==> #[trigger] s.push(x)[k] == s[k]);
        lemma_find_first_is(s.push(x), p, f);
    } else {
        assert(forall|k: int| 0 <= k < s.len() ==> #[trigger] s.push(x)[k] == s[k]);
        if p(x) {
            assert(s.push(x)[s.len() as int] == x);
            lemma_find_first_is(s.push(x), p, s.len() as int);
        } else {
            assert(forall|k: int| 0 <= k < s.push(x).len() ==> !p(#[trigger] s.push(x)[k]));
            lemma_find_first_none(s.push(x), p);
        }
    }
}

/// `b` extends `a`: the original entries stand untouched at the front.
pub open spec fn extends<T>(a: Seq<T>, b: Seq<T>) -> bool {
    a.len() <= b.len() && b.subrange(0, a.len() as int) == a
}

pub proof fn lemma_extends_refl<T>(a: Seq<T>)
    ensures
        extends(a, a),
{
    assert(a.subrange(0, a.len() as int) =~= a);
}

pub proof fn lemma_extends_trans<T>(a: Seq<T>, b: Seq<T>, c: Seq<T>)
    requires
        extends(a, b),
        extends(b, c),
    ensures
        extends(a, c),
{
    assert forall|k: int| 0 <= k < a.len() implies c[k] == a[k] by {
        assert(b.subrange(0, a.len() as int)[k] == b[k]);
        assert(c.subrange(0, b.len() as int)[k] == c[k]);
    }
    assert(c.subrange(0, a.len() as int) =~= a);
}

} // verus!
