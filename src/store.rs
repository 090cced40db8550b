use vstd::prelude::*;

verus! {

/// The first element of `s` that satisfies `p`, if any.
pub open spec fn first<T>(s: Seq<T>, p: spec_fn(T) -> bool) -> Option<T>
    decreases s.len(),
{
    if s.len() == 0 {
        None
    } else if p(s[0]) {
        Some(s[0])
    } else {
        first(s.drop_first(), p)
    }
}

/// An element at an index before which nothing satisfies `p` is the first match.
pub proof fn lemma_first_at<T>(s: Seq<T>, p: spec_fn(T) -> bool, i: int)
    requires
        0 <= i < s.len(),
        p(s[i]),
        forall|j: int| 0 <= j < i ==> !p(s[j]),
    ensures
        first(s, p) == Some(s[i]),
    decreases i,
{
    if i > 0 {
        lemma_first_at(s.drop_first(), p, i - 1);
    }
}

/// Where nothing satisfies `p` there is no first match.
pub proof fn lemma_first_none<T>(s: Seq<T>, p: spec_fn(T) -> bool)
    requires
        forall|j: int| 0 <= j < s.len() ==> !p(s[j]),
    ensures
        first(s, p) is None,
    decreases s.len(),
{
    if s.len() > 0 {
        lemma_first_none(s.drop_first(), p);
    }
}

/// A first match is an element that satisfies `p`.
pub proof fn lemma_first_some<T>(s: Seq<T>, p: spec_fn(T) -> bool)
    ensures
        first(s, p) matches Some(x) ==> p(x) && s.contains(x),
    decreases s.len(),
{
    if s.len() > 0 && !p(s[0]) {
        lemma_first_some(s.drop_first(), p);
        if first(s, p) is Some {
            let x = first(s, p)->0;
            let k = choose|k: int| 0 <= k < s.drop_first().len() && s.drop_first()[k] == x;
            assert(s[k + 1] == x);
        }
    }
}

/// Replacing the element at `i` by one that agrees with it on `p`, where no
/// earlier element satisfies `p`, makes the new element the first match if it
/// satisfies `p` and leaves the first match as it was otherwise.
pub proof fn lemma_first_update<T>(s: Seq<T>, p: spec_fn(T) -> bool, i: int, x: T)
    requires
        0 <= i < s.len(),
        p(s[i]) == p(x),
        p(x) ==> forall|j: int| 0 <= j < i ==> !p(s[j]),
    ensures
        first(s.update(i, x), p) == (if p(x) { Some(x) } else { first(s, p) }),
    decreases i,
{
    if i > 0 {
        lemma_first_update(s.drop_first(), p, i - 1, x);
        assert(s.update(i, x).drop_first() =~= s.drop_first().update(i - 1, x));
    } else {
        assert(s.update(0, x).drop_first() =~= s.drop_first());
    }
}

/// Appending keeps a first match and otherwise adds the new element as one.
pub proof fn lemma_first_push<T>(s: Seq<T>, p: spec_fn(T) -> bool, x: T)
    ensures
        first(s.push(x), p) == (if first(s, p) is Some {
            first(s, p)
        } else if p(x) {
            Some(x)
        } else {
            None
        }),
    decreases s.len(),
{
    if s.len() > 0 {
        lemma_first_push(s.drop_first(), p, x);
        assert(s.push(x).drop_first() =~= s.drop_first().push(x));
    } else {
        assert(s.push(x).drop_first() =~= Seq::<T>::empty());
        assert(first(s.push(x).drop_first(), p) is None);
    }
}

/// Removing an element that does not satisfy `p` keeps the first match.
pub proof fn lemma_first_remove_other<T>(s: Seq<T>, p: spec_fn(T) -> bool, i: int)
    requires
        0 <= i < s.len(),
        !p(s[i]),
    ensures
        first(s.remove(i), p) == first(s, p),
    decreases i,
{
    if i > 0 {
        lemma_first_remove_other(s.drop_first(), p, i - 1);
        assert(s.remove(i).drop_first() =~= s.drop_first().remove(i - 1));
    } else {
        assert(s.remove(0) =~= s.drop_first());
    }
}

} // verus!
