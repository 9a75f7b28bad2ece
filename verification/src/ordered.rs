//! Maps and sets that are keyed by integers, with their keys in order.

use std::collections::{BTreeMap, BTreeSet};
use vstd::prelude::*;

verus! {

broadcast use vstd::std_specs::btree::group_btree_axioms;

/// A key that is an integer.
pub trait Key: Copy {
    /// The integer.
    spec fn number(self) -> int;

    /// The integer tells keys apart.
    proof fn is_its_number(a: Self, b: Self)
        requires
            a.number() == b.number(),
        ensures
            a == b,
    ;

    fn is_below(self, other: Self) -> (r: bool)
        ensures
            r == (self.number() < other.number()),
    ;
}

impl Key for u64 {
    open spec fn number(self) -> int {
        self as int
    }

    proof fn is_its_number(a: u64, b: u64) {
    }

    fn is_below(self, other: u64) -> (r: bool) {
        self < other
    }
}

impl Key for u32 {
    open spec fn number(self) -> int {
        self as int
    }

    proof fn is_its_number(a: u32, b: u32) {
    }

    fn is_below(self, other: u32) -> (r: bool) {
        self < other
    }
}

impl Key for i16 {
    open spec fn number(self) -> int {
        self as int
    }

    proof fn is_its_number(a: i16, b: i16) {
    }

    fn is_below(self, other: i16) -> (r: bool) {
        self < other
    }
}

pub open spec fn ascending<K: Key>(s: Seq<K>) -> bool {
    forall|i: int, j: int|
        0 <= i < j < s.len() ==> (#[trigger] s[i]).number() < (#[trigger] s[j]).number()
}

/// Puts a key in its place in an ascending list that does not hold it.
fn place<K: Key>(list: &mut Vec<K>, key: K)
    requires
        ascending(old(list)@),
        !old(list)@.contains(key),
    ensures
        ascending(final(list)@),
        forall|k: K| final(list)@.contains(k) <==> (old(list)@.contains(k) || k == key),
{
    let mut at: usize = list.len();
    while at > 0 && key.is_below(list[at - 1])
        invariant
            at <= list.len(),
            list@ == old(list)@,
            ascending(list@),
            forall|j: int| at <= j < list@.len() ==> key.number() < (#[trigger] list@[j]).number(),
        decreases at,
    {
        at -= 1;
    }
    proof {
        if at > 0 {
            assert(old(list)@.contains(list@[at - 1]));
            if list@[at - 1].number() == key.number() {
                K::is_its_number(list@[at - 1], key);
            }
        }
    }
    let ghost before = list@;
    list.insert(at, key);
    assert(list@ =~= before.insert(at as int, key));
    assert forall|k: K| list@.contains(k) <==> (before.contains(k) || k == key) by {
        if before.contains(k) {
            let i = choose|i: int| 0 <= i < before.len() && before[i] == k;
            assert(list@[if i < at { i } else { i + 1 }] == k);
        }
        if k == key {
            assert(list@[at as int] == key);
        }
        if list@.contains(k) {
            let i = choose|i: int| 0 <= i < list@.len() && list@[i] == k;
            if i != at {
                assert(before[if i < at { i } else { i - 1 }] == k);
            }
        }
    }
}

/// One more key of a list without repetitions is not among those before it.
proof fn lemma_next_key<K>(all: Seq<K>, n: int)
    requires
        0 <= n < all.len(),
        all.no_duplicates(),
    ensures
        !all.take(n).contains(all[n]),
        all.take(n + 1) == all.take(n).push(all[n]),
        forall|k: K| #[trigger]
            all.take(n + 1).contains(k) <==> (all.take(n).contains(k) || k == all[n]),
{
    let before = all.take(n);
    let next = all.take(n + 1);
    assert(next =~= before.push(all[n]));
    if before.contains(all[n]) {
        let i = choose|i: int| 0 <= i < before.len() && before[i] == all[n];
        assert(all[i] == all[n]);
    }
    assert forall|k: K| #[trigger] next.contains(k) <==> (before.contains(k) || k == all[n]) by {
        if before.contains(k) {
            let i = choose|i: int| 0 <= i < before.len() && before[i] == k;
            assert(next[i] == k);
        }
        if k == all[n] {
            assert(next[n] == k);
        }
    }
}

/// The keys of a map, in order.
pub fn sorted_keys<K: Key, V>(m: &BTreeMap<K, V>) -> (r: Vec<K>)
    requires
        vstd::std_specs::btree::key_obeys_cmp_spec::<K>(),
    ensures
        ascending(r@),
        forall|k: K| #[trigger] r@.contains(k) <==> m@.contains_key(k),
{
    let mut r: Vec<K> = Vec::new();
    let ghost mut seen: Seq<K> = seq![];
    for k in iter: m.keys()
        invariant
            ascending(r@),
            iter.seq().unref().to_set() == m@.dom(),
            iter.seq().unref().no_duplicates(),
            seen == iter.seq().unref().take(iter.index()),
            iter.index() == iter.seq().len() ==> seen =~= iter.seq().unref(),
            forall|x: K| #[trigger] r@.contains(x) <==> seen.contains(x),
    {
        proof {
            let all = iter.seq().unref();
            lemma_next_key(all, iter.index());
            seen = seen.push(*k);
        }
        place(&mut r, *k);
    }
    proof {
        assert forall|k: K| #[trigger] r@.contains(k) <==> m@.contains_key(k) by {
            assert(seen.contains(k) <==> seen.to_set().contains(k));
            assert(m@.dom().contains(k) <==> m@.contains_key(k));
        }
    }
    r
}

/// The members of a set, in order.
pub fn sorted_members(m: &BTreeSet<u64>) -> (r: Vec<u64>)
    ensures
        ascending(r@),
        forall|k: u64| #[trigger] r@.contains(k) <==> m@.contains(k),
{
    let mut r: Vec<u64> = Vec::new();
    let ghost mut seen: Seq<u64> = seq![];
    for k in iter: m.iter()
        invariant
            ascending(r@),
            iter.seq().unref().to_set() == m@,
            iter.seq().unref().no_duplicates(),
            seen == iter.seq().unref().take(iter.index()),
            iter.index() == iter.seq().len() ==> seen =~= iter.seq().unref(),
            forall|x: u64| #[trigger] r@.contains(x) <==> seen.contains(x),
    {
        proof {
            let all = iter.seq().unref();
            lemma_next_key(all, iter.index());
            seen = seen.push(*k);
        }
        place(&mut r, *k);
    }
    proof {
        assert forall|k: u64| #[trigger] r@.contains(k) <==> m@.contains(k) by {
            assert(seen.contains(k) <==> seen.to_set().contains(k));
        }
    }
    r
}

/// The members of a set of row identities below `n`, in ascending order.
pub open spec fn ids_below(s: Set<u64>, n: nat) -> Seq<u64>
    decreases n,
{
    if n == 0 {
        seq![]
    } else {
        let before = ids_below(s, (n - 1) as nat);
        if s.contains((n - 1) as u64) {
            before.push((n - 1) as u64)
        } else {
            before
        }
    }
}

/// The members of a set of row identities, in ascending order.
pub open spec fn sorted_ids(s: Set<u64>) -> Seq<u64> {
    ids_below(s, 0x1_0000_0000_0000_0000)
}

proof fn lemma_ids_below(s: Set<u64>, n: nat)
    requires
        n <= 0x1_0000_0000_0000_0000,
    ensures
        ascending(ids_below(s, n)),
        forall|k: u64| #[trigger] ids_below(s, n).contains(k) <==> (s.contains(k) && k < n),
    decreases n,
{
    if n > 0 {
        let m = (n - 1) as nat;
        let last = m as u64;
        lemma_ids_below(s, m);
        let before = ids_below(s, m);
        let now = ids_below(s, n);
        if s.contains(last) {
            assert(now =~= before.push(last));
            assert(now[before.len() as int] == last);
            assert forall|i: int, j: int| 0 <= i < j < now.len() implies #[trigger] now[i]
                < #[trigger] now[j] by {
                assert(before.contains(before[i]));
            }
            assert forall|k: u64| #[trigger] now.contains(k) <==> (s.contains(k) && k < n) by {
                if before.contains(k) {
                    let i = choose|i: int| 0 <= i < before.len() && before[i] == k;
                    assert(now[i] == k);
                }
                if now.contains(k) {
                    let i = choose|i: int| 0 <= i < now.len() && now[i] == k;
                    if i < before.len() {
                        assert(before[i] == k);
                        assert(before.contains(k));
                    }
                }
            }
        } else {
            assert forall|k: u64| #[trigger] now.contains(k) <==> (s.contains(k) && k < n) by {
                assert(before.contains(k) <==> (s.contains(k) && k < m));
            }
        }
    }
}

/// The list of the members of a set is ascending and holds just them.
pub proof fn sorted_ids_list_the_set(s: Set<u64>)
    ensures
        ascending(sorted_ids(s)),
        forall|k: u64| #[trigger] sorted_ids(s).contains(k) <==> s.contains(k),
{
    lemma_ids_below(s, 0x1_0000_0000_0000_0000);
}

proof fn lemma_ascending_unique(a: Seq<u64>, b: Seq<u64>)
    requires
        ascending(a),
        ascending(b),
        forall|k: u64| #[trigger] a.contains(k) <==> b.contains(k),
    ensures
        a == b,
    decreases a.len(),
{
    if a.len() == 0 {
        if b.len() > 0 {
            assert(b.contains(b[0]));
            assert(a.contains(b[0]));
        }
        assert(a =~= b);
    } else {
        assert(a.contains(a.last()));
        assert(b.len() > 0);
        assert(b.contains(b.last()));
        assert(a.contains(b.last()));
        let i = choose|i: int| 0 <= i < b.len() && b[i] == a.last();
        let j = choose|j: int| 0 <= j < a.len() && a[j] == b.last();
        assert(i < b.len() - 1 ==> b[i] < b[b.len() - 1]);
        assert(j < a.len() - 1 ==> a[j] < a[a.len() - 1]);
        assert(a.last() == b.last());
        let x = a.drop_last();
        let y = b.drop_last();
        assert forall|k: u64| #[trigger] x.contains(k) <==> y.contains(k) by {
            if x.contains(k) {
                let n = choose|n: int| 0 <= n < x.len() && x[n] == k;
                assert(a[n] == k && a[n] < a[a.len() - 1]);
                assert(a.contains(k));
                let m = choose|m: int| 0 <= m < b.len() && b[m] == k;
                assert(y[m] == k);
            }
            if y.contains(k) {
                let n = choose|n: int| 0 <= n < y.len() && y[n] == k;
                assert(b[n] == k && b[n] < b[b.len() - 1]);
                assert(b.contains(k));
                assert(a.contains(k));
                let m = choose|m: int| 0 <= m < a.len() && a[m] == k;
                assert(x[m] == k);
            }
        }
        lemma_ascending_unique(x, y);
        assert(a =~= x.push(a.last()));
        assert(b =~= y.push(b.last()));
    }
}

/// An ascending list of the members of a set is the list of its members.
pub proof fn sorted_ids_are(s: Set<u64>, q: Seq<u64>)
    requires
        ascending(q),
        forall|k: u64| #[trigger] q.contains(k) <==> s.contains(k),
    ensures
        sorted_ids(s) == q,
{
    sorted_ids_list_the_set(s);
    assert forall|k: u64| #[trigger] sorted_ids(s).contains(k) <==> q.contains(k) by {
        assert(q.contains(k) <==> s.contains(k));
    }
    lemma_ascending_unique(sorted_ids(s), q);
}

/// The list of the members of a set has as many elements as the set.
pub proof fn sorted_ids_count_the_set(s: Set<u64>)
    ensures
        sorted_ids(s).len() == s.len(),
{
    let q = sorted_ids(s);
    sorted_ids_list_the_set(s);
    assert(q.no_duplicates());
    q.unique_seq_to_set();
    assert(q.to_set() =~= s);
}

} // verus!
