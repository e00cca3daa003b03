//! Walking a numbered collection in the order of its numbers.
use std::collections::BTreeMap;
use vstd::prelude::*;
use vstd::std_specs::btree::increasing_seq;
use vstd::std_specs::cmp::OrdSpec;
use vstd::std_specs::iter::IteratorSpec;

verus! {

/// The members of `ids` below `bound`, in increasing order.
pub open spec fn ids_below(ids: Set<usize>, bound: nat) -> Seq<usize>
    decreases bound,
{
    if bound == 0 {
        Seq::empty()
    } else {
        let before = ids_below(ids, (bound - 1) as nat);
        if bound - 1 <= usize::MAX && ids.contains((bound - 1) as usize) {
            before.push((bound - 1) as usize)
        } else {
            before
        }
    }
}

/// The members of `ids`, in increasing order.
pub open spec fn in_order(ids: Set<usize>) -> Seq<usize> {
    ids_below(ids, usize::MAX as nat + 1)
}

/// `s` is strictly increasing.
pub open spec fn increasing(s: Seq<usize>) -> bool {
    forall|i: int, j: int| 0 <= i < j < s.len() ==> s[i] < s[j]
}

proof fn lemma_ids_below(ids: Set<usize>, bound: nat)
    ensures
        increasing(ids_below(ids, bound)),
        forall|id: usize| #[trigger]
            ids_below(ids, bound).contains(id) <==> ids.contains(id) && id < bound,
    decreases bound,
{
    if bound > 0 {
        lemma_ids_below(ids, (bound - 1) as nat);
        let before = ids_below(ids, (bound - 1) as nat);
        let s = ids_below(ids, bound);
        assert forall|i: int| 0 <= i < before.len() implies before[i] < bound - 1 by {
            assert(before.contains(before[i]));
        }
        assert forall|id: usize| #[trigger]
            s.contains(id) <==> ids.contains(id) && id < bound by {
            if s.len() > before.len() {
                assert(s[before.len() as int] == bound - 1);
            }
            if s.contains(id) {
                let i = choose|i: int| 0 <= i < s.len() && s[i] == id;
                if i < before.len() {
                    assert(before[i] == id);
                    assert(before.contains(id));
                }
            }
            if ids.contains(id) && id < bound {
                if id < bound - 1 {
                    assert(before.contains(id));
                    let i = choose|i: int| 0 <= i < before.len() && before[i] == id;
                    assert(s[i] == id);
                }
            }
        }
    }
}

/// The ordered members: increasing, and exactly the members.
pub proof fn lemma_in_order(ids: Set<usize>)
    ensures
        increasing(in_order(ids)),
        forall|id: usize| #[trigger] in_order(ids).contains(id) <==> ids.contains(id),
{
    lemma_ids_below(ids, usize::MAX as nat + 1);
}

proof fn lemma_increasing_unique(a: Seq<usize>, b: Seq<usize>)
    requires
        increasing(a),
        increasing(b),
        forall|id: usize| a.contains(id) <==> b.contains(id),
    ensures
        a == b,
    decreases a.len(),
{
    if a.len() == 0 {
        if b.len() > 0 {
            assert(b.contains(b[0]));
            assert(a.contains(b[0]));
        }
        assert(a =~= b);
    } else {
        assert(a.contains(a.last()));
        assert(b.contains(a.last()));
        assert(b.len() > 0);
        assert(b.contains(b.last()));
        assert(a.contains(b.last()));
        let i = choose|i: int| 0 <= i < b.len() && b[i] == a.last();
        let j = choose|j: int| 0 <= j < a.len() && a[j] == b.last();
        assert(a.last() == b.last()) by {
            if i < b.len() - 1 {
                assert(b[i] < b.last());
                assert(j < a.len() - 1 ==> a[j] < a.last());
            }
        }
        let c = a.drop_last();
        let d = b.drop_last();
        assert forall|id: usize| c.contains(id) <==> d.contains(id) by {
            if c.contains(id) {
                let k = choose|k: int| 0 <= k < c.len() && c[k] == id;
                assert(a[k] == id);
                assert(a.contains(id));
                let m = choose|m: int| 0 <= m < b.len() && b[m] == id;
                assert(id < a.last());
                assert(d[m] == id);
            }
            if d.contains(id) {
                let k = choose|k: int| 0 <= k < d.len() && d[k] == id;
                assert(b[k] == id);
                assert(b.contains(id));
                let m = choose|m: int| 0 <= m < a.len() && a[m] == id;
                assert(id < b.last());
                assert(c[m] == id);
            }
        }
        lemma_increasing_unique(c, d);
        assert(a =~= c.push(a.last()));
        assert(b =~= d.push(b.last()));
    }
}

/// An increasing listing of exactly the members is the ordered listing.
pub proof fn lemma_in_order_unique(ids: Set<usize>, s: Seq<usize>)
    requires
        increasing(s),
        forall|id: usize| #[trigger] s.contains(id) <==> ids.contains(id),
    ensures
        s == in_order(ids),
{
    lemma_in_order(ids);
    assert forall|id: usize| s.contains(id) <==> in_order(ids).contains(id) by {}
    lemma_increasing_unique(s, in_order(ids));
}

proof fn lemma_take_all<T>(s: Seq<T>)
    ensures
        s.take(s.len() as int) == s,
{
    assert(s.take(s.len() as int) =~= s);
}

/// The numbers of a collection, in increasing order.
pub fn ids_of<V>(list: &BTreeMap<usize, V>) -> (ids: Vec<usize>)
    ensures
        ids@ == in_order(list@.dom()),
        forall|i: int| 0 <= i < ids@.len() ==> list@.contains_key(#[trigger] ids@[i]),
{
    broadcast use vstd::std_specs::btree::group_btree_axioms;
    broadcast use vstd::laws_cmp::group_laws_cmp;

    assert(vstd::laws_cmp::obeys_cmp::<usize>());
    let mut ids: Vec<usize> = Vec::new();
    let iter = list.iter();
    let ghost kvs = iter.remaining();
    for (id, gpu) in it: iter
        invariant
            it.seq() == kvs,
            ids@ == kvs.take(it.index()).map_values(|kv: (&usize, &V)| *kv.0),
    {
        ids.push(*id);
    }
    proof {
        let keys = kvs.map_values(|kv: (&usize, &V)| *kv.0);
        lemma_take_all(kvs);
        assert(ids@ == keys);
        assert(increasing_seq(keys));
        assert forall|i: int, j: int| 0 <= i < j < keys.len() implies keys[i] < keys[j] by {
            assert(keys[i].cmp_spec(&keys[j]) is Less);
        }
        assert forall|id: usize| #[trigger] keys.contains(id) <==> list@.dom().contains(id) by {
            if keys.contains(id) {
                let i = choose|i: int| 0 <= i < keys.len() && keys[i] == id;
                assert(list@.contains_key(*kvs[i].0));
            }
            if list@.dom().contains(id) {
                assert(list@.contains_key(id));
                assert(kvs.contains((&id, &list@[id])));
                let i = choose|i: int| 0 <= i < kvs.len() && kvs[i] == (&id, &list@[id]);
                assert(keys[i] == id);
            }
        }
        lemma_in_order_unique(list@.dom(), keys);
        assert forall|i: int| 0 <= i < ids@.len() implies list@.contains_key(
            #[trigger] ids@[i],
        ) by {
            assert(keys.contains(keys[i]));
        }
    }
    ids
}

/// The member with this number.
pub fn member<V>(list: &BTreeMap<usize, V>, id: usize) -> (value: &V)
    requires
        list@.contains_key(id),
    ensures
        *value == list@[id],
{
    broadcast use vstd::std_specs::btree::group_btree_axioms;
    broadcast use vstd::laws_cmp::group_laws_cmp;

    list.get(&id).unwrap()
}

/// Puts a member under a number, in place of the one that may be there.
pub fn put<V>(list: &mut BTreeMap<usize, V>, id: usize, value: V)
    ensures
        final(list)@ == old(list)@.insert(id, value),
{
    broadcast use vstd::std_specs::btree::group_btree_axioms;
    broadcast use vstd::laws_cmp::group_laws_cmp;

    let _ = list.insert(id, value);
}

/// Takes out the member with this number.
pub fn take_out<V>(list: &mut BTreeMap<usize, V>, id: usize) -> (value: V)
    requires
        old(list)@.contains_key(id),
    ensures
        final(list)@ == old(list)@.remove(id),
        value == old(list)@[id],
{
    broadcast use vstd::std_specs::btree::group_btree_axioms;
    broadcast use vstd::laws_cmp::group_laws_cmp;

    list.remove(&id).unwrap()
}

} // verus!
