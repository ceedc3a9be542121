//! Identity-keyed lookup from opaque handles to renderer-owned records.
//!
//! A `Handle` is a cheap copyable identity; two handles refer to the same
//! asset exactly when their ids are equal.  `Handles<T>` is an association
//! list from handle ids to records, whose mathematical content is a
//! `Map<u64, T>`.

use vstd::prelude::*;
use vstd::map::*;

verus! {

/// An opaque, cheaply copyable identity for a renderer-owned asset.
/// Comparison is by id, not by the record the id leads to.
#[derive(Clone, Copy, PartialEq, Eq, Structural, Debug, Hash)]
pub struct Handle {
    pub id: u64,
}

impl Handle {
    /// Callers pick the id; distinct assets must get distinct ids.
    pub fn new(id: u64) -> (r: Handle)
        ensures
            r == (Handle { id }),
    {
        Handle { id }
    }

    /// Identity comparison.
    pub fn same(&self, other: &Handle) -> (r: bool)
        ensures
            r == (self.id == other.id),
    {
        self.id == other.id
    }
}

/// The map described by an association list: later entries win.
pub open spec fn map_of<T>(s: Seq<(u64, T)>) -> Map<u64, T>
    decreases s.len(),
{
    if s.len() == 0 {
        Map::empty()
    } else {
        map_of(s.drop_last()).insert(s.last().0, s.last().1)
    }
}

/// No key occurs twice in the list.
pub open spec fn keys_unique<T>(s: Seq<(u64, T)>) -> bool {
    forall|i: int, j: int| 0 <= i < j < s.len() ==> (#[trigger] s[i]).0 != (#[trigger] s[j]).0
}

proof fn lemma_map_of_contains<T>(s: Seq<(u64, T)>, k: u64)
    ensures
        map_of(s).contains_key(k) <==> exists|i: int| 0 <= i < s.len() && (#[trigger] s[i]).0 == k,
    decreases s.len(),
{
    if s.len() > 0 {
        lemma_map_of_contains(s.drop_last(), k);
        if s.last().0 == k {
            assert((s[s.len() - 1]).0 == k);
        } else if map_of(s).contains_key(k) {
            let i = choose|i: int| 0 <= i < s.drop_last().len() && (#[trigger] s.drop_last()[i]).0
                == k;
            assert((s[i]).0 == k);
        } else {
            assert forall|i: int| 0 <= i < s.len() implies (#[trigger] s[i]).0 != k by {
                if i < s.len() - 1 {
                    assert(s.drop_last()[i] == s[i]);
                }
            }
        }
    }
}

proof fn lemma_map_of_index<T>(s: Seq<(u64, T)>, i: int)
    requires
        keys_unique(s),
        0 <= i < s.len(),
    ensures
        map_of(s).contains_key((s[i]).0),
        map_of(s)[(s[i]).0] == (s[i]).1,
    decreases s.len(),
{
    if i == s.len() - 1 {
    } else {
        assert(s.drop_last()[i] == s[i]);
        lemma_map_of_index(s.drop_last(), i);
        assert((s[i]).0 != (s[s.len() - 1]).0);
    }
}

/// An association list from handle ids to records.  Lookups scan the list;
/// removal swaps the last entry into the hole, so order among unrelated
/// keys is not kept (the map view never shows order).
#[derive(Debug)]
pub struct Handles<T> {
    entries: Vec<(u64, T)>,
}

impl<T> Handles<T> {
    /// The internal list never holds a key twice.
    pub closed spec fn wf(&self) -> bool {
        keys_unique(self.entries@)
    }

    /// The registry's content as a map from id to record.
    pub closed spec fn spec_map(&self) -> Map<u64, T> {
        map_of(self.entries@)
    }

    /// An empty registry.
    pub fn new() -> (r: Handles<T>)
        ensures
            r.wf(),
            r.spec_map() == Map::<u64, T>::empty(),
    {
        Handles { entries: Vec::new() }
    }

    /// How many records the registry holds.
    pub fn len(&self) -> (r: usize)
        requires
            self.wf(),
        ensures
            r == self.spec_map().dom().len(),
    {
        proof {
            lemma_map_len(self.entries@);
        }
        self.entries.len()
    }

    /// The position of a key in the list, if it is there.
    fn index_of(&self, handle: &Handle) -> (r: Option<usize>)
        requires
            self.wf(),
        ensures
            match r {
                Some(i) => i < self.entries@.len() && (self.entries@[i as int]).0 == handle.id
                    && self.spec_map().contains_key(handle.id),
                None => !self.spec_map().contains_key(handle.id),
            },
    {
        let n = self.entries.len();
        let mut i: usize = 0;
        while i < n
            invariant
                n == self.entries@.len(),
                0 <= i <= n,
                keys_unique(self.entries@),
                forall|j: int| 0 <= j < i ==> (#[trigger] self.entries@[j]).0 != handle.id,
            decreases n - i,
        {
            if self.entries[i].0 == handle.id {
                proof {
                    lemma_map_of_contains(self.entries@, handle.id);
                }
                return Some(i);
            }
            i = i + 1;
        }
        proof {
            lemma_map_of_contains(self.entries@, handle.id);
        }
        None
    }

    /// Whether a record is registered under this handle.
    pub fn contains(&self, handle: &Handle) -> (r: bool)
        requires
            self.wf(),
        ensures
            r == self.spec_map().contains_key(handle.id),
    {
        self.index_of(handle).is_some()
    }

    /// The record registered under this handle, if any.
    pub fn get(&self, handle: &Handle) -> (r: Option<&T>)
        requires
            self.wf(),
        ensures
            match r {
                Some(v) => self.spec_map().contains_key(handle.id) && *v
                    == self.spec_map()[handle.id],
                None => !self.spec_map().contains_key(handle.id),
            },
    {
        match self.index_of(handle) {
            Some(i) => {
                proof {
                    lemma_map_of_index(self.entries@, i as int);
                }
                Some(&self.entries[i].1)
            },
            None => None,
        }
    }

    /// Register a record under a handle.  A record already registered
    /// under the same handle is replaced and handed back.
    pub fn insert(&mut self, handle: &Handle, value: T) -> (r: Option<T>)
        requires
            old(self).wf(),
        ensures
            final(self).wf(),
            final(self).spec_map() == old(self).spec_map().insert(handle.id, value),
            match r {
                Some(v) => old(self).spec_map().contains_key(handle.id) && v == old(
                    self,
                ).spec_map()[handle.id],
                None => !old(self).spec_map().contains_key(handle.id),
            },
    {
        let ghost s0 = self.entries@;
        match self.index_of(handle) {
            Some(i) => {
                proof {
                    lemma_map_of_index(s0, i as int);
                }
                let old_entry = self.entries.swap_remove(i);
                self.entries.push((handle.id, value));
                proof {
                    lemma_swap_remove_unique(s0, i as int);
                    lemma_push_insert(
                        s0.update(i as int, s0.last()).drop_last(),
                        handle.id,
                        value,
                    );
                    lemma_map_of_swap_remove(s0, i as int);
                    assert_maps_equal!(
                        map_of(s0).remove(handle.id).insert(handle.id, value),
                        map_of(s0).insert(handle.id, value),
                    );
                }
                Some(old_entry.1)
            },
            None => {
                self.entries.push((handle.id, value));
                proof {
                    lemma_map_of_contains(s0, handle.id);
                    lemma_push_insert(s0, handle.id, value);
                }
                None
            },
        }
    }

    /// Drop the record registered under a handle, handing it back.
    pub fn remove(&mut self, handle: &Handle) -> (r: Option<T>)
        requires
            old(self).wf(),
        ensures
            final(self).wf(),
            final(self).spec_map() == old(self).spec_map().remove(handle.id),
            match r {
                Some(v) => old(self).spec_map().contains_key(handle.id) && v == old(
                    self,
                ).spec_map()[handle.id],
                None => !old(self).spec_map().contains_key(handle.id),
            },
    {
        let ghost s0 = self.entries@;
        match self.index_of(handle) {
            Some(i) => {
                proof {
                    lemma_map_of_index(s0, i as int);
                }
                let old_entry = self.entries.swap_remove(i);
                proof {
                    lemma_swap_remove_unique(s0, i as int);
                    lemma_map_of_swap_remove(s0, i as int);
                }
                Some(old_entry.1)
            },
            None => {
                proof {
                    assert_maps_equal!(map_of(s0).remove(handle.id), map_of(s0));
                }
                None
            },
        }
    }
}

proof fn lemma_map_len<T>(s: Seq<(u64, T)>)
    requires
        keys_unique(s),
    ensures
        map_of(s).dom().len() == s.len(),
        map_of(s).dom().finite(),
    decreases s.len(),
{
    if s.len() == 0 {
        assert(map_of(s).dom() =~= Set::<u64>::empty());
    } else {
        lemma_map_len(s.drop_last());
        lemma_map_of_contains(s.drop_last(), s.last().0);
        assert(forall|i: int| 0 <= i < s.len() - 1 ==> s.drop_last()[i] == s[i]);
        assert(!map_of(s.drop_last()).contains_key(s.last().0));
        assert(map_of(s).dom() =~= map_of(s.drop_last()).dom().insert(s.last().0));
        vstd::set::axiom_set_insert_len(map_of(s.drop_last()).dom(), s.last().0);
    }
}

proof fn lemma_push_insert<T>(s: Seq<(u64, T)>, k: u64, v: T)
    ensures
        map_of(s.push((k, v))) == map_of(s).insert(k, v),
        keys_unique(s) && !map_of(s).contains_key(k) ==> keys_unique(s.push((k, v))),
{
    let s2 = s.push((k, v));
    assert(s2.drop_last() =~= s);
    assert(s2.last() == (k, v));
    if keys_unique(s) && !map_of(s).contains_key(k) {
        lemma_map_of_contains(s, k);
        assert forall|i: int, j: int| 0 <= i < j < s2.len() implies (#[trigger] s2[i]).0
            != (#[trigger] s2[j]).0 by {
            if j < s2.len() - 1 {
                assert(s2[i] == s[i] && s2[j] == s[j]);
            } else {
                assert(s2[i] == s[i]);
            }
        }
    }
}

proof fn lemma_swap_remove_unique<T>(s: Seq<(u64, T)>, i: int)
    requires
        keys_unique(s),
        0 <= i < s.len(),
    ensures
        keys_unique(s.update(i, s.last()).drop_last()),
{
    let s2 = s.update(i, s.last()).drop_last();
    assert forall|a: int, b: int| 0 <= a < b < s2.len() implies (#[trigger] s2[a]).0
        != (#[trigger] s2[b]).0 by {
        let ea = if a == i {
            s[s.len() - 1]
        } else {
            s[a]
        };
        let eb = if b == i {
            s[s.len() - 1]
        } else {
            s[b]
        };
        assert(s2[a] == ea && s2[b] == eb);
    }
}

/// After moving the last entry over position `i` and dropping the tail,
/// the map loses exactly the key that was at `i`.
proof fn lemma_map_of_swap_remove<T>(s: Seq<(u64, T)>, i: int)
    requires
        keys_unique(s),
        0 <= i < s.len(),
    ensures
        map_of(s.update(i, s.last()).drop_last()) == map_of(s).remove((s[i]).0),
{
    let s2 = s.update(i, s.last()).drop_last();
    let k = (s[i]).0;
    assert_maps_equal!(map_of(s2), map_of(s).remove(k), x => {
        lemma_map_of_contains(s2, x);
        lemma_map_of_contains(s, x);
        if map_of(s2).contains_key(x) {
            let a = choose|a: int| 0 <= a < s2.len() && (#[trigger] s2[a]).0 == x;
            lemma_map_of_index(s2, a);
            lemma_swap_remove_unique(s, i);
            let orig = if a == i {
                s.len() - 1
            } else {
                a
            };
            assert(s2[a] == s[orig]);
            lemma_map_of_index(s, orig);
            assert(x != k);
        }
        if map_of(s).remove(k).contains_key(x) {
            let a = choose|a: int| 0 <= a < s.len() && (#[trigger] s[a]).0 == x;
            assert(x != k);
            assert(a != i);
            if a == s.len() - 1 {
                if i < s.len() - 1 {
                    assert((s2[i]).0 == x);
                }
            } else {
                assert(s2[a] == s[a]);
            }
            lemma_map_of_contains(s2, x);
        }
    });
}

} // verus!
