//! Sorting by a key, where equal keys keep their order.

use vstd::prelude::*;

use crate::search;

verus! {

/// Where an element goes in a sorted list: behind every element whose key is
/// no greater.
pub open spec fn place<V>(s: Seq<(i64, V)>, key: i64) -> int
    decreases s.len(),
{
    if s.len() == 0 || s.last().0 <= key {
        s.len() as int
    } else {
        place(s.drop_last(), key)
    }
}

/// A list sorted by key. Elements with equal keys stay in their order.
pub open spec fn sorted<V>(s: Seq<(i64, V)>) -> Seq<(i64, V)>
    decreases s.len(),
{
    if s.len() == 0 {
        s
    } else {
        let before = sorted(s.drop_last());
        before.insert(place(before, s.last().0), s.last())
    }
}

pub open spec fn ascending<V>(s: Seq<(i64, V)>) -> bool {
    forall|i: int, j: int| 0 <= i < j < s.len() ==> (#[trigger] s[i]).0 <= (#[trigger] s[j]).0
}

pub open spec fn has_key<V>(key: i64) -> spec_fn((i64, V)) -> bool {
    |e: (i64, V)| e.0 == key
}

proof fn lemma_place<V>(s: Seq<(i64, V)>, key: i64)
    ensures
        0 <= place(s, key) <= s.len(),
        place(s, key) > 0 ==> s[place(s, key) - 1].0 <= key,
        forall|i: int| place(s, key) <= i < s.len() ==> key < (#[trigger] s[i]).0,
    decreases s.len(),
{
    if s.len() > 0 && s.last().0 > key {
        lemma_place(s.drop_last(), key);
        let n = place(s, key);
        assert forall|i: int| n <= i < s.len() implies key < (#[trigger] s[i]).0 by {
            if i < s.len() - 1 {
                assert(s.drop_last()[i] == s[i]);
            }
        }
    }
}

/// A sorted list is in the order of its keys, and as long as the list that it
/// was made of.
pub proof fn sorted_is_ascending<V>(s: Seq<(i64, V)>)
    ensures
        ascending(sorted(s)),
        sorted(s).len() == s.len(),
    decreases s.len(),
{
    if s.len() > 0 {
        let before = sorted(s.drop_last());
        sorted_is_ascending(s.drop_last());
        let n = place(before, s.last().0);
        lemma_place(before, s.last().0);
        let now = sorted(s);
        assert(now == before.insert(n, s.last()));
        assert forall|i: int, j: int| 0 <= i < j < now.len() implies (#[trigger] now[i]).0 <= (
        #[trigger] now[j]).0 by {
            let x = if i < n {
                i
            } else {
                i - 1
            };
            let y = if j < n {
                j
            } else {
                j - 1
            };
            if i == n {
                assert(now[j] == before[j - 1]);
            } else if j == n {
                assert(now[i] == before[i]);
                assert(before[n - 1].0 <= s.last().0);
                if i < n - 1 {
                    assert(before[i].0 <= before[n - 1].0);
                }
            } else {
                assert(now[i] == before[x] && now[j] == before[y]);
            }
        }
    }
}

proof fn lemma_insert_keeps<V>(s: Seq<(i64, V)>, n: int, x: (i64, V), key: i64)
    requires
        0 <= n <= s.len(),
        x.0 == key ==> forall|i: int| n <= i < s.len() ==> key < (#[trigger] s[i]).0,
    ensures
        search::all_with(s.insert(n, x), has_key(key)) == (if x.0 == key {
            search::all_with(s, has_key(key)).push(x)
        } else {
            search::all_with(s, has_key(key))
        }),
    decreases s.len(),
{
    let now = s.insert(n, x);
    if n == s.len() {
        assert(now.drop_last() =~= s);
    } else {
        let before = s.drop_last();
        assert(now.drop_last() =~= before.insert(n, x));
        assert(now.last() == s.last());
        assert(s[s.len() - 1] == s.last());
        assert forall|i: int| n <= i < before.len() implies s[i] == #[trigger] before[i] by {}
        lemma_insert_keeps(before, n, x, key);
    }
}

/// Sorting keeps the elements with a key, and their order.
pub proof fn sorted_keeps_the_elements<V>(s: Seq<(i64, V)>, key: i64)
    ensures
        search::all_with(sorted(s), has_key(key)) == search::all_with(s, has_key(key)),
    decreases s.len(),
{
    if s.len() > 0 {
        let before = sorted(s.drop_last());
        sorted_keeps_the_elements(s.drop_last(), key);
        lemma_place(before, s.last().0);
        lemma_insert_keeps(before, place(before, s.last().0), s.last(), key);
    }
}

/// Sorts a list by key. Elements with equal keys stay in their order.
pub fn sort<V>(list: Vec<(i64, V)>) -> (r: Vec<(i64, V)>)
    ensures
        r@ == sorted(list@),
{
    let ghost all = list@;
    let mut rest = list;
    let mut r: Vec<(i64, V)> = Vec::new();
    // The last of the rest comes off first, so the rest is turned round before.
    let mut turned: Vec<(i64, V)> = Vec::new();
    while rest.len() > 0
        invariant
            rest@ + turned@.reverse() =~= all,
        decreases rest@.len(),
    {
        match rest.pop() {
            Some(x) => {
                turned.push(x);
            },
            None => {
                assert(false);
            },
        }
    }
    assert(all.take(0) =~= seq![]);
    assert(turned@.reverse() =~= all);
    while turned.len() > 0
        invariant
            turned@.len() <= all.len(),
            turned@ =~= all.skip(all.len() - turned@.len()).reverse(),
            r@ == sorted(all.take(all.len() - turned@.len())),
        decreases turned@.len(),
    {
        let ghost done = all.len() - turned@.len();
        let ghost left = turned@;
        match turned.pop() {
            Some(x) => {
                assert(left.last() == all[done]);
                assert(all.take(done + 1).drop_last() =~= all.take(done));
                assert(all.take(done + 1).last() == x);
                let mut n: usize = r.len();
                assert(r@.take(n as int) =~= r@);
                while n > 0 && x.0 < r[n - 1].0
                    invariant
                        n <= r.len(),
                        place(r@, x.0) == place(r@.take(n as int), x.0),
                    decreases n,
                {
                    assert(r@.take(n as int).drop_last() =~= r@.take(n - 1));
                    n -= 1;
                }
                r.insert(n, x);
                assert(turned@ =~= all.skip(done + 1).reverse());
            },
            None => {
                assert(false);
            },
        }
    }
    assert(all.take(all.len() as int) =~= all);
    r
}

} // verus!
