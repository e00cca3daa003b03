//! Values listed under textual identifiers.
use crate::text::{
    comes_before, lemma_text_before_chain, lemma_text_before_total, lemma_text_not_before_itself,
    same_text, text_before,
};
use vstd::prelude::*;

verus! {

/// A value and the identifier that it is listed under.
#[derive(Clone, Debug)]
struct Entry<V> {
    id: String,
    value: V,
}

/// Values by identifier, in the order of the identifiers. None occurs twice.
#[derive(Clone, Debug)]
pub struct Listing<V> {
    entries: Vec<Entry<V>>,
}

spec fn entry_ids<V>(entries: Seq<Entry<V>>) -> Seq<Seq<char>> {
    Seq::new(entries.len(), |i: int| entries[i].id@)
}

/// Each identifier comes before those behind it.
pub open spec fn in_text_order(ids: Seq<Seq<char>>) -> bool {
    forall|i: int, j: int|
        0 <= i < j < ids.len() ==> text_before(#[trigger] ids[i], #[trigger] ids[j])
}

/// Identifiers in order are all different.
proof fn lemma_in_order_distinct(ids: Seq<Seq<char>>)
    requires
        in_text_order(ids),
    ensures
        ids.no_duplicates(),
{
    assert forall|i: int, j: int| 0 <= i < ids.len() && 0 <= j < ids.len() && i != j implies ids[i]
        != ids[j] by {
        lemma_text_not_before_itself(ids[i]);
        if i < j {
            assert(text_before(ids[i], ids[j]));
        } else {
            assert(text_before(ids[j], ids[i]));
        }
    }
}

/// Entry `i` is the one listed under `id`.
spec fn lists_at<V>(entries: Seq<Entry<V>>, id: Seq<char>, i: int) -> bool {
    0 <= i < entries.len() && entries[i].id@ == id
}

impl<V> View for Listing<V> {
    type V = Map<Seq<char>, V>;

    closed spec fn view(&self) -> Map<Seq<char>, V> {
        Map::new(
            |id: Seq<char>| exists|i: int| lists_at(self.entries@, id, i),
            |id: Seq<char>| self.entries@[choose|i: int| lists_at(self.entries@, id, i)].value,
        )
    }
}

impl<V> Listing<V> {
    /// The entries stand in the order of their identifiers, and none occurs twice.
    pub closed spec fn wf(&self) -> bool {
        in_text_order(entry_ids(self.entries@))
    }

    /// A listing of nothing.
    pub fn new() -> (list: Self)
        ensures
            list.wf(),
            list@ == Map::<Seq<char>, V>::empty(),
    {
        let list = Listing { entries: Vec::new() };
        assert(list@ =~= Map::empty());
        list
    }

    /// How many values are listed.
    pub fn len(&self) -> (len: usize)
        requires
            self.wf(),
        ensures
            self@.dom().finite(),
            len == self@.dom().len(),
    {
        proof {
            let ids = entry_ids(self.entries@);
            lemma_in_order_distinct(ids);
            ids.unique_seq_to_set();
            assert(ids.to_set() =~= self@.dom()) by {
                assert forall|id: Seq<char>| ids.to_set().contains(id) <==> self@.dom().contains(
                    id,
                ) by {
                    if ids.contains(id) {
                        let i = choose|i: int| 0 <= i < ids.len() && ids[i] == id;
                        assert(lists_at(self.entries@, id, i));
                    }
                    if self@.dom().contains(id) {
                        let i = choose|i: int| lists_at(self.entries@, id, i);
                        assert(ids[i] == id);
                    }
                }
            }
        }
        self.entries.len()
    }

    proof fn lemma_listed(&self, i: int)
        requires
            self.wf(),
            0 <= i < self.entries@.len(),
        ensures
            self@.contains_key(self.entries@[i].id@),
            self@[self.entries@[i].id@] == self.entries@[i].value,
    {
        let id = self.entries@[i].id@;
        assert(lists_at(self.entries@, id, i));
        let j = choose|j: int| lists_at(self.entries@, id, j);
        let ids = entry_ids(self.entries@);
        lemma_in_order_distinct(ids);
        assert(ids[i] == ids[j]);
        assert(i == j);
    }

    fn position(&self, id: &str) -> (found: Option<usize>)
        ensures
            found matches Some(i) ==> lists_at(self.entries@, id@, i as int),
            found is None ==> forall|i: int| !lists_at(self.entries@, id@, i),
    {
        let mut i: usize = 0;
        while i < self.entries.len()
            invariant
                i <= self.entries@.len(),
                forall|j: int| 0 <= j < i ==> !lists_at(self.entries@, id@, j),
            decreases self.entries.len() - i,
        {
            if same_text(self.entries[i].id.as_str(), id) {
                return Some(i);
            }
            i = i + 1;
        }
        None
    }

    /// The value listed under an identifier.
    pub fn get(&self, id: &str) -> (value: Option<&V>)
        requires
            self.wf(),
        ensures
            value is Some <==> self@.contains_key(id@),
            value matches Some(v) ==> *v == self@[id@],
    {
        match self.position(id) {
            Some(i) => {
                proof {
                    self.lemma_listed(i as int);
                }
                Some(&self.entries[i].value)
            },
            None => None,
        }
    }

    /// The identifiers that something is listed under, in their order.
    pub fn ids(&self) -> (ids: Vec<String>)
        requires
            self.wf(),
        ensures
            forall|i: int| 0 <= i < ids@.len() ==> self@.contains_key((#[trigger] ids@[i])@),
            forall|i: int, j: int|
                0 <= i < j < ids@.len() ==> text_before(
                    (#[trigger] ids@[i])@,
                    (#[trigger] ids@[j])@,
                ),
            forall|id: Seq<char>| #[trigger]
                self@.contains_key(id) ==> exists|i: int|
                    0 <= i < ids@.len() && (#[trigger] ids@[i])@ == id,
    {
        let mut ids: Vec<String> = Vec::new();
        let mut i: usize = 0;
        while i < self.entries.len()
            invariant
                self.wf(),
                i <= self.entries@.len(),
                ids@.len() == i,
                forall|j: int| 0 <= j < i ==> (#[trigger] ids@[j])@ == self.entries@[j].id@,
            decreases self.entries.len() - i,
        {
            ids.push(self.entries[i].id.clone());
            i = i + 1;
        }
        proof {
            assert forall|j: int| 0 <= j < ids@.len() implies self@.contains_key(
                (#[trigger] ids@[j])@,
            ) by {
                self.lemma_listed(j);
            }
            assert forall|j: int, k: int| 0 <= j < k < ids@.len() implies text_before(
                (#[trigger] ids@[j])@,
                (#[trigger] ids@[k])@,
            ) by {
                assert(text_before(entry_ids(self.entries@)[j], entry_ids(self.entries@)[k]));
            }
            assert forall|id: Seq<char>| #[trigger] self@.contains_key(id) implies exists|j: int|
                0 <= j < ids@.len() && (#[trigger] ids@[j])@ == id by {
                let j = choose|j: int| lists_at(self.entries@, id, j);
                assert(ids@[j]@ == id);
            }
        }
        ids
    }

    /// Where an identifier belongs: everything before comes before it, and nothing from there on
    /// does.
    fn place(&self, id: &str) -> (at: usize)
        requires
            self.wf(),
        ensures
            at <= self.entries@.len(),
            forall|j: int| 0 <= j < at ==> text_before(#[trigger] entry_ids(self.entries@)[j], id@),
            forall|j: int|
                at <= j < self.entries@.len() ==> !text_before(
                    #[trigger] entry_ids(self.entries@)[j],
                    id@,
                ),
    {
        let ghost ids = entry_ids(self.entries@);
        let mut at: usize = 0;
        while at < self.entries.len() && comes_before(self.entries[at].id.as_str(), id)
            invariant
                at <= self.entries@.len(),
                ids == entry_ids(self.entries@),
                forall|j: int| 0 <= j < at ==> text_before(#[trigger] ids[j], id@),
            ensures
                at <= self.entries@.len(),
                forall|j: int| 0 <= j < at ==> text_before(#[trigger] ids[j], id@),
                at < self.entries@.len() ==> !text_before(ids[at as int], id@),
            decreases self.entries.len() - at,
        {
            at = at + 1;
        }
        proof {
            assert forall|j: int| at <= j < ids.len() implies !text_before(
                #[trigger] ids[j],
                id@,
            ) by {
                if at < j && text_before(ids[j], id@) {
                    assert(text_before(ids[at as int], ids[j]));
                    lemma_text_before_chain(ids[at as int], ids[j], id@);
                }
            }
        }
        at
    }

    /// Lists a value, in place of the one that may be listed under the same identifier.
    pub fn insert(&mut self, id: String, value: V)
        requires
            old(self).wf(),
        ensures
            final(self).wf(),
            final(self)@ == old(self)@.insert(id@, value),
    {
        let ghost before = *self;
        let ghost ids = entry_ids(self.entries@);
        let ghost name = id@;
        let ghost listed = value;
        let at: usize = self.place(id.as_str());
        let known = at < self.entries.len() && same_text(self.entries[at].id.as_str(), id.as_str());
        if known {
            self.entries.set(at, Entry { id, value });
            assert(entry_ids(self.entries@) =~= ids);
        } else {
            self.entries.insert(at, Entry { id, value });
            assert(entry_ids(self.entries@) =~= ids.insert(at as int, name));
        }
        proof {
            let after = *self;
            let now = entry_ids(after.entries@);
            // From the place on, every identifier comes behind the new one.
            assert forall|j: int| at <= j < ids.len() && !(known && j == at) implies text_before(
                name,
                #[trigger] ids[j],
            ) by {
                assert(!text_before(ids[j], name));
                if ids[j] == name {
                    if known {
                        assert(text_before(ids[at as int], ids[j]));
                        lemma_text_not_before_itself(name);
                    } else if at < j {
                        assert(text_before(ids[at as int], ids[j]));
                    }
                } else {
                    lemma_text_before_total(ids[j], name);
                }
            }
            if !known {
                assert forall|i: int, j: int| 0 <= i < j < now.len() implies text_before(
                    #[trigger] now[i],
                    #[trigger] now[j],
                ) by {
                    let p = if i < at {
                        i
                    } else {
                        i - 1
                    };
                    let q = if j < at {
                        j
                    } else {
                        j - 1
                    };
                    if i == at {
                        assert(now[j] == ids[q]);
                    } else if j == at {
                        assert(now[i] == ids[p]);
                    } else {
                        assert(now[i] == ids[p] && now[j] == ids[q]);
                        assert(text_before(ids[p], ids[q]));
                    }
                }
            }
            assert(after.wf());
            assert forall|x: Seq<char>| after@.contains_key(x) <==> before@.insert(
                name,
                listed,
            ).contains_key(x) by {
                if after@.contains_key(x) && x != name {
                    let j = choose|j: int| lists_at(after.entries@, x, j);
                    let p = if known || j < at {
                        j
                    } else {
                        j - 1
                    };
                    assert(lists_at(before.entries@, x, p));
                }
                if before@.contains_key(x) && x != name {
                    let j = choose|j: int| lists_at(before.entries@, x, j);
                    let p = if known || j < at {
                        j
                    } else {
                        j + 1
                    };
                    assert(lists_at(after.entries@, x, p));
                }
                if x == name {
                    assert(lists_at(after.entries@, x, at as int));
                }
            }
            assert forall|x: Seq<char>| after@.contains_key(x) implies after@[x] == before@.insert(
                name,
                listed,
            )[x] by {
                let j = choose|j: int| lists_at(after.entries@, x, j);
                after.lemma_listed(j);
                if x != name {
                    let p = if known || j < at {
                        j
                    } else {
                        j - 1
                    };
                    assert(lists_at(before.entries@, x, p));
                    before.lemma_listed(p);
                } else {
                    after.lemma_listed(at as int);
                }
            }
            assert(after@ =~= before@.insert(name, listed));
        }
    }
}

} // verus!
