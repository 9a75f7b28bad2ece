//! The first and the last element of a sequence that has a property.

use vstd::prelude::*;

verus! {

/// Where the first element of `s` with the property `p` stands.
pub open spec fn first_index<T>(s: Seq<T>, p: spec_fn(T) -> bool) -> Option<int>
    decreases s.len(),
{
    if s.len() == 0 {
        None
    } else if p(s[0]) {
        Some(0)
    } else {
        match first_index(s.drop_first(), p) {
            Some(i) => Some(i + 1),
            None => None,
        }
    }
}

/// The first element of `s` with the property `p`.
pub open spec fn first_with<T>(s: Seq<T>, p: spec_fn(T) -> bool) -> Option<T> {
    match first_index(s, p) {
        Some(i) => Some(s[i]),
        None => None,
    }
}

/// What `first_index` finds has the property, and nothing before it has; where
/// it finds nothing, no element has the property.
pub proof fn first_index_is_first<T>(s: Seq<T>, p: spec_fn(T) -> bool)
    ensures
        match first_index(s, p) {
            Some(i) => {
                &&& 0 <= i < s.len()
                &&& p(s[i])
                &&& forall|j: int| 0 <= j < i ==> !p(#[trigger] s[j])
            },
            None => forall|j: int| 0 <= j < s.len() ==> !p(#[trigger] s[j]),
        },
    decreases s.len(),
{
    if s.len() > 0 && !p(s[0]) {
        let rest = s.drop_first();
        first_index_is_first(rest, p);
        assert forall|j: int| 1 <= j < s.len() implies #[trigger] s[j] == rest[j - 1] by {}
    }
}

/// An element with the property that nothing before it has is what
/// `first_index` finds.
pub proof fn first_index_at<T>(s: Seq<T>, p: spec_fn(T) -> bool, i: int)
    requires
        0 <= i < s.len(),
        p(s[i]),
        forall|j: int| 0 <= j < i ==> !p(#[trigger] s[j]),
    ensures
        first_index(s, p) == Some(i),
{
    first_index_is_first(s, p);
    match first_index(s, p) {
        Some(k) => {
            if k < i {
                assert(!p(s[k]));
            } else if i < k {
                assert(!p(s[i]));
            }
        },
        None => {
            assert(!p(s[i]));
        },
    }
}

/// Where no element has the property, `first_index` finds nothing.
pub proof fn first_index_none<T>(s: Seq<T>, p: spec_fn(T) -> bool)
    requires
        forall|j: int| 0 <= j < s.len() ==> !p(#[trigger] s[j]),
    ensures
        first_index(s, p) is None,
{
    first_index_is_first(s, p);
}

/// The last element of `s` with the property `p`.
pub open spec fn last_with<T>(s: Seq<T>, p: spec_fn(T) -> bool) -> Option<T>
    decreases s.len(),
{
    if s.len() == 0 {
        None
    } else if p(s.last()) {
        Some(s.last())
    } else {
        last_with(s.drop_last(), p)
    }
}

/// Where no two elements have the property, the only one that has it is the
/// first and the last.
pub proof fn only_element_is_first_and_last<T>(s: Seq<T>, p: spec_fn(T) -> bool, i: int)
    requires
        0 <= i < s.len(),
        p(s[i]),
        forall|j: int| 0 <= j < s.len() && j != i ==> !p(#[trigger] s[j]),
    ensures
        first_with(s, p) == Some(s[i]),
        last_with(s, p) == Some(s[i]),
    decreases s.len(),
{
    first_index_at(s, p, i);
    if i < s.len() - 1 {
        assert(!p(s[s.len() - 1]));
        only_element_is_first_and_last(s.drop_last(), p, i);
    }
}

/// Where an element has the property, the last one that has it is found.
pub proof fn last_with_finds<T>(s: Seq<T>, p: spec_fn(T) -> bool, i: int)
    requires
        0 <= i < s.len(),
        p(s[i]),
    ensures
        last_with(s, p) matches Some(x) && p(x) && s.contains(x),
    decreases s.len(),
{
    if p(s.last()) {
        assert(s[s.len() - 1] == s.last());
    } else {
        last_with_finds(s.drop_last(), p, i);
        let x = last_with(s.drop_last(), p)->0;
        let j = choose|j: int| 0 <= j < s.drop_last().len() && s.drop_last()[j] == x;
        assert(s[j] == x);
    }
}

/// What `last_with` finds has the property and is an element.
pub proof fn last_with_has<T>(s: Seq<T>, p: spec_fn(T) -> bool)
    ensures
        last_with(s, p) matches Some(x) ==> p(x) && s.contains(x),
    decreases s.len(),
{
    if s.len() > 0 {
        if p(s.last()) {
            assert(s[s.len() - 1] == s.last());
        } else {
            last_with_has(s.drop_last(), p);
            match last_with(s.drop_last(), p) {
                Some(x) => {
                    let j = choose|j: int|
                        0 <= j < s.drop_last().len() && s.drop_last()[j] == x;
                    assert(s[j] == x);
                },
                None => {},
            }
        }
    }
}

/// What the elements of a list show.
pub open spec fn views<T: View>(s: Seq<T>) -> Seq<T::V> {
    Seq::new(s.len(), |i: int| s[i]@)
}

/// What a value shows, where there is one.
pub open spec fn option_view<T: View>(v: Option<T>) -> Option<T::V> {
    match v {
        Some(x) => Some(x@),
        None => None,
    }
}

/// The first value that `f` gives for an element.
pub open spec fn first_some<A, B>(s: Seq<A>, f: spec_fn(A) -> Option<B>) -> Option<B>
    decreases s.len(),
{
    if s.len() == 0 {
        None
    } else {
        match f(s[0]) {
            Some(x) => Some(x),
            None => first_some(s.drop_first(), f),
        }
    }
}

/// The values that `f` gives for the elements, in their order.
pub open spec fn all_some<A, B>(s: Seq<A>, f: spec_fn(A) -> Option<B>) -> Seq<B>
    decreases s.len(),
{
    if s.len() == 0 {
        seq![]
    } else {
        let before = all_some(s.drop_last(), f);
        match f(s.last()) {
            Some(x) => before.push(x),
            None => before,
        }
    }
}

/// The first element of a list with a property.
pub(crate) fn find_first<'a, T, F: Fn(&T) -> bool>(
    list: &'a [T],
    test: F,
    p: Ghost<spec_fn(T) -> bool>,
) -> (r: Option<&'a T>)
    requires
        forall|x: &T| #[trigger] test.requires((x,)),
        forall|x: &T, b: bool| #[trigger] test.ensures((x,), b) ==> b == p@(*x),
    ensures
        match r {
            Some(x) => first_with(list@, p@) == Some(*x),
            None => first_with(list@, p@) is None,
        },
{
    let mut i: usize = 0;
    while i < list.len()
        invariant
            i <= list@.len(),
            forall|x: &T| #[trigger] test.requires((x,)),
            forall|x: &T, b: bool| #[trigger] test.ensures((x,), b) ==> b == p@(*x),
            forall|j: int| 0 <= j < i ==> !p@(#[trigger] list@[j]),
        decreases list@.len() - i,
    {
        if test(&list[i]) {
            proof {
                first_index_at(list@, p@, i as int);
            }
            return Some(&list[i]);
        }
        i += 1;
    }
    proof {
        first_index_none(list@, p@);
    }
    None
}

/// The elements of a list with a property, in their order.
pub open spec fn all_with<T>(s: Seq<T>, p: spec_fn(T) -> bool) -> Seq<T>
    decreases s.len(),
{
    if s.len() == 0 {
        seq![]
    } else {
        let before = all_with(s.drop_last(), p);
        if p(s.last()) {
            before.push(s.last())
        } else {
            before
        }
    }
}

/// The elements of a list with a property, in their order.
pub(crate) fn find_all<T: Copy, F: Fn(&T) -> bool>(
    list: &[T],
    test: F,
    p: Ghost<spec_fn(T) -> bool>,
) -> (r: Vec<T>)
    requires
        forall|x: &T| #[trigger] test.requires((x,)),
        forall|x: &T, b: bool| #[trigger] test.ensures((x,), b) ==> b == p@(*x),
    ensures
        r@ == all_with(list@, p@),
{
    let mut r: Vec<T> = Vec::new();
    let mut i: usize = 0;
    assert(list@.take(0) =~= seq![]);
    while i < list.len()
        invariant
            i <= list@.len(),
            forall|x: &T| #[trigger] test.requires((x,)),
            forall|x: &T, b: bool| #[trigger] test.ensures((x,), b) ==> b == p@(*x),
            r@ == all_with(list@.take(i as int), p@),
        decreases list@.len() - i,
    {
        assert(list@.take(i + 1).drop_last() =~= list@.take(i as int));
        if test(&list[i]) {
            r.push(list[i]);
        }
        i += 1;
    }
    assert(list@.take(i as int) =~= list@);
    r
}

/// The first value that a list gives.
pub(crate) fn find_map<A: View, B: View, F: Fn(&A) -> Option<B>>(
    list: &Vec<A>,
    read: F,
    f: Ghost<spec_fn(A::V) -> Option<B::V>>,
) -> (r: Option<B>)
    requires
        forall|x: &A| #[trigger] read.requires((x,)),
        forall|x: &A, v: Option<B>| #[trigger]
            read.ensures((x,), v) ==> option_view(v) == f@(x@),
    ensures
        option_view(r) == first_some(views(list@), f@),
{
    let ghost all = views(list@);
    let mut i: usize = 0;
    assert(all.skip(0) =~= all);
    while i < list.len()
        invariant
            i <= list.len(),
            all == views(list@),
            forall|x: &A| #[trigger] read.requires((x,)),
            forall|x: &A, v: Option<B>| #[trigger]
                read.ensures((x,), v) ==> option_view(v) == f@(x@),
            first_some(all, f@) == first_some(all.skip(i as int), f@),
        decreases list.len() - i,
    {
        assert(all.skip(i as int).drop_first() =~= all.skip(i + 1));
        assert(all.skip(i as int)[0] == list@[i as int]@);
        let found = read(&list[i]);
        if found.is_some() {
            return found;
        }
        i += 1;
    }
    None
}

/// The values that a list gives, in its order.
pub(crate) fn filter_map<A: View, B: View, F: Fn(&A) -> Option<B>>(
    list: &Vec<A>,
    read: F,
    f: Ghost<spec_fn(A::V) -> Option<B::V>>,
) -> (r: Vec<B>)
    requires
        forall|x: &A| #[trigger] read.requires((x,)),
        forall|x: &A, v: Option<B>| #[trigger]
            read.ensures((x,), v) ==> option_view(v) == f@(x@),
    ensures
        views(r@) == all_some(views(list@), f@),
{
    let ghost all = views(list@);
    let mut r: Vec<B> = Vec::new();
    let mut i: usize = 0;
    assert(all.take(0) =~= seq![]);
    assert(views(r@) =~= seq![]);
    while i < list.len()
        invariant
            i <= list.len(),
            all == views(list@),
            forall|x: &A| #[trigger] read.requires((x,)),
            forall|x: &A, v: Option<B>| #[trigger]
                read.ensures((x,), v) ==> option_view(v) == f@(x@),
            views(r@) == all_some(all.take(i as int), f@),
        decreases list.len() - i,
    {
        assert(all.take(i + 1).drop_last() =~= all.take(i as int));
        match read(&list[i]) {
            Some(v) => {
                let ghost before = r@;
                let ghost view = v@;
                r.push(v);
                assert(views(r@) =~= views(before).push(view));
            },
            None => {},
        }
        i += 1;
    }
    assert(all.take(i as int) =~= all);
    r
}

/// The values that `f` gives for the elements, where it gives one for each.
pub open spec fn every_some<A, B>(s: Seq<A>, f: spec_fn(A) -> Option<B>) -> Option<Seq<B>>
    decreases s.len(),
{
    if s.len() == 0 {
        Some(seq![])
    } else {
        match (every_some(s.drop_last(), f), f(s.last())) {
            (Some(before), Some(x)) => Some(before.push(x)),
            _ => None,
        }
    }
}

/// Where one element gives nothing, not every one does.
pub proof fn one_without_is_none<A, B>(s: Seq<A>, f: spec_fn(A) -> Option<B>, i: int)
    requires
        0 <= i < s.len(),
        f(s[i]) is None,
    ensures
        every_some(s, f) is None,
    decreases s.len(),
{
    if i < s.len() - 1 {
        one_without_is_none(s.drop_last(), f, i);
    }
}

/// The values that a list gives, where each element gives one.
pub(crate) fn try_map<A: View, B: View, F: Fn(&A) -> Option<B>>(
    list: &Vec<A>,
    read: F,
    f: Ghost<spec_fn(A::V) -> Option<B::V>>,
) -> (r: Option<Vec<B>>)
    requires
        forall|x: &A| #[trigger] read.requires((x,)),
        forall|x: &A, v: Option<B>| #[trigger]
            read.ensures((x,), v) ==> option_view(v) == f@(x@),
    ensures
        match r {
            Some(v) => every_some(views(list@), f@) == Some(views(v@)),
            None => every_some(views(list@), f@) is None,
        },
{
    let ghost all = views(list@);
    let mut r: Vec<B> = Vec::new();
    let mut i: usize = 0;
    assert(all.take(0) =~= seq![]);
    assert(views(r@) =~= seq![]);
    while i < list.len()
        invariant
            i <= list.len(),
            all == views(list@),
            forall|x: &A| #[trigger] read.requires((x,)),
            forall|x: &A, v: Option<B>| #[trigger]
                read.ensures((x,), v) ==> option_view(v) == f@(x@),
            every_some(all.take(i as int), f@) == Some(views(r@)),
        decreases list.len() - i,
    {
        assert(all.take(i + 1).drop_last() =~= all.take(i as int));
        assert(all[i as int] == list@[i as int]@);
        match read(&list[i]) {
            Some(v) => {
                let ghost before = r@;
                let ghost view = v@;
                r.push(v);
                assert(views(r@) =~= views(before).push(view));
            },
            None => {
                proof {
                    one_without_is_none(all, f@, i as int);
                }
                return None;
            },
        }
        i += 1;
    }
    assert(all.take(i as int) =~= all);
    Some(r)
}

} // verus!
