//! A stable sort by an unsigned key, as `sort_by_key` orders.

use vstd::prelude::*;

verus! {

/// Values ordered by an unsigned key.
pub trait SortKey: Sized {
    spec fn spec_key(&self) -> u64;

    fn sort_key(&self) -> (k: u64)
        ensures
            k == self.spec_key(),
    ;
}

/// `sorted` with `x` inserted after every element whose key is at most `x`'s.
pub open spec fn spec_insert_sorted<T: SortKey>(sorted: Seq<T>, x: T) -> Seq<T>
    decreases sorted.len(),
{
    if sorted.len() == 0 {
        seq![x]
    } else if sorted.last().spec_key() <= x.spec_key() {
        sorted.push(x)
    } else {
        spec_insert_sorted(sorted.drop_last(), x).push(sorted.last())
    }
}

/// The stable sort of `s` by key: equal keys keep their order.
pub open spec fn spec_sort_by_key<T: SortKey>(s: Seq<T>) -> Seq<T>
    decreases s.len(),
{
    if s.len() == 0 {
        s
    } else {
        spec_insert_sorted(spec_sort_by_key(s.drop_last()), s.last())
    }
}

proof fn lemma_insert_len<T: SortKey>(sorted: Seq<T>, x: T)
    ensures
        spec_insert_sorted(sorted, x).len() == sorted.len() + 1,
    decreases sorted.len(),
{
    if sorted.len() > 0 && !(sorted.last().spec_key() <= x.spec_key()) {
        lemma_insert_len(sorted.drop_last(), x);
    }
}

proof fn lemma_insert_members<T: SortKey>(sorted: Seq<T>, x: T, y: T)
    requires
        spec_insert_sorted(sorted, x).contains(y),
    ensures
        y == x || sorted.contains(y),
    decreases sorted.len(),
{
    if sorted.len() == 0 {
        assert(spec_insert_sorted(sorted, x) =~= seq![x]);
    } else if sorted.last().spec_key() <= x.spec_key() {
        let r = sorted.push(x);
        let k = choose|k: int| 0 <= k < r.len() && r[k] == y;
        if k < sorted.len() {
            assert(sorted[k] == y);
        }
    } else {
        let inner = spec_insert_sorted(sorted.drop_last(), x);
        let r = inner.push(sorted.last());
        let k = choose|k: int| 0 <= k < r.len() && r[k] == y;
        if k < inner.len() {
            assert(inner.contains(y));
            lemma_insert_members(sorted.drop_last(), x, y);
            if y != x {
                let m = choose|m: int| 0 <= m < sorted.drop_last().len() && sorted.drop_last()[m] == y;
                assert(sorted[m] == y);
            }
        } else {
            assert(sorted[sorted.len() - 1] == y);
        }
    }
}

/// Sorting only reorders: every element of the result is an element of the input.
pub proof fn lemma_sort_members<T: SortKey>(s: Seq<T>, y: T)
    requires
        spec_sort_by_key(s).contains(y),
    ensures
        s.contains(y),
    decreases s.len(),
{
    if s.len() > 0 {
        lemma_insert_members(spec_sort_by_key(s.drop_last()), s.last(), y);
        if y != s.last() {
            lemma_sort_members(s.drop_last(), y);
            let m = choose|m: int| 0 <= m < s.drop_last().len() && s.drop_last()[m] == y;
            assert(s[m] == y);
        } else {
            assert(s[s.len() - 1] == y);
        }
    }
}

/// Whether keys never decrease along `s`.
pub open spec fn spec_keys_sorted<T: SortKey>(s: Seq<T>) -> bool {
    forall|i: int, j: int| 0 <= i < j < s.len() ==> (#[trigger] s[i]).spec_key() <= (#[trigger] s[j]).spec_key()
}

proof fn lemma_insert_sorted_keeps_order<T: SortKey>(sorted: Seq<T>, x: T)
    requires
        spec_keys_sorted(sorted),
    ensures
        spec_keys_sorted(spec_insert_sorted(sorted, x)),
        spec_insert_sorted(sorted, x).to_multiset() =~= sorted.to_multiset().insert(x),
    decreases sorted.len(),
{
    broadcast use vstd::seq_lib::group_to_multiset_ensures;

    if sorted.len() == 0 {
        assert(seq![x] =~= Seq::<T>::empty().push(x));
    } else if sorted.last().spec_key() <= x.spec_key() {
        let r = sorted.push(x);
        assert forall|i: int, j: int| 0 <= i < j < r.len() implies (#[trigger] r[i]).spec_key() <= (
        #[trigger] r[j]).spec_key() by {
            if j == sorted.len() {
                if i < sorted.len() - 1 {
                    assert(sorted[i].spec_key() <= sorted[sorted.len() - 1].spec_key());
                }
            } else {
                assert(r[i] == sorted[i] && r[j] == sorted[j]);
            }
        }
    } else {
        let rest = sorted.drop_last();
        let last = sorted.last();
        assert forall|i: int, j: int| 0 <= i < j < rest.len() implies (#[trigger] rest[i]).spec_key() <= (
        #[trigger] rest[j]).spec_key() by {
            assert(rest[i] == sorted[i] && rest[j] == sorted[j]);
        }
        lemma_insert_sorted_keeps_order(rest, x);
        lemma_insert_len(rest, x);
        let inner = spec_insert_sorted(rest, x);
        let r = inner.push(last);
        assert forall|i: int, j: int| 0 <= i < j < r.len() implies (#[trigger] r[i]).spec_key() <= (
        #[trigger] r[j]).spec_key() by {
            if j == inner.len() {
                assert(r[i] == inner[i]);
                assert(inner.contains(inner[i]));
                lemma_insert_members(rest, x, inner[i]);
                if inner[i] != x {
                    let m = choose|m: int| 0 <= m < rest.len() && rest[m] == inner[i];
                    assert(sorted[m] == rest[m]);
                    assert(sorted[m].spec_key() <= sorted[sorted.len() - 1].spec_key());
                }
            } else {
                assert(r[i] == inner[i] && r[j] == inner[j]);
            }
        }
        assert(rest.push(last) =~= sorted);
    }
}

/// The stable sort orders by key and keeps every element: its keys never
/// decrease, and it holds exactly the input's elements, as often as the
/// input does.
pub proof fn sort_orders_and_keeps_every_element<T: SortKey>(s: Seq<T>)
    ensures
        spec_keys_sorted(spec_sort_by_key(s)),
        spec_sort_by_key(s).to_multiset() =~= s.to_multiset(),
    decreases s.len(),
{
    broadcast use vstd::seq_lib::group_to_multiset_ensures;

    if s.len() > 0 {
        sort_orders_and_keeps_every_element(s.drop_last());
        lemma_insert_sorted_keeps_order(spec_sort_by_key(s.drop_last()), s.last());
        assert(s.drop_last().push(s.last()) =~= s);
    }
}

fn insert_sorted<T: SortKey>(mut v: Vec<T>, x: T) -> (r: Vec<T>)
    ensures
        r@ == spec_insert_sorted(v@, x),
    decreases v@.len(),
{
    if v.len() == 0 {
        v.push(x);
        return v;
    }
    let n = v.len();
    if v[n - 1].sort_key() <= x.sort_key() {
        v.push(x);
        v
    } else {
        let ghost orig = v@;
        let last = v.pop().unwrap();
        proof {
            assert(v@ =~= orig.drop_last());
        }
        let mut r = insert_sorted(v, x);
        r.push(last);
        r
    }
}

/// Stable sort by key.
pub fn sort_by_key<T: SortKey>(mut v: Vec<T>) -> (r: Vec<T>)
    ensures
        r@ == spec_sort_by_key(v@),
{
    let ghost orig = v@;
    let mut out: Vec<T> = Vec::new();
    proof {
        assert(orig.subrange(0, 0) =~= Seq::<T>::empty());
    }
    while v.len() > 0
        invariant
            orig.len() == out@.len() + v@.len(),
            v@ == orig.subrange(out@.len() as int, orig.len() as int),
            out@ == spec_sort_by_key(orig.subrange(0, out@.len() as int)),
        decreases v@.len(),
    {
        let ghost k: int = out@.len() as int;
        let x = v.remove(0);
        proof {
            let t = orig.subrange(0, k + 1);
            assert(t.drop_last() =~= orig.subrange(0, k));
            assert(t.last() == x);
        }
        proof {
            lemma_insert_len(out@, x);
        }
        out = insert_sorted(out, x);
        proof {
            assert(v@ =~= orig.subrange(out@.len() as int, orig.len() as int));
        }
    }
    proof {
        assert(orig.subrange(0, orig.len() as int) =~= orig);
    }
    out
}

} // verus!
