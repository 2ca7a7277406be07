//! Per-node data cache: the panels keep what they loaded for each node, so that
//! switching between nodes shows the data at once.
use vstd::prelude::*;
use crate::text::{owned, str_eq};

verus! {

broadcast use vstd::seq_lib::group_seq_properties;

/// Position of the first entry keyed `k`.
pub open spec fn key_index<T>(s: Seq<(String, T)>, k: Seq<char>) -> Option<int>
    decreases s.len(),
{
    if s.len() == 0 {
        None
    } else if s[0].0@ == k {
        Some(0)
    } else {
        match key_index(s.drop_first(), k) {
            Some(i) => Some(i + 1),
            None => None,
        }
    }
}

/// The value of the first entry keyed `k`.
pub open spec fn lookup<T>(s: Seq<(String, T)>, k: Seq<char>) -> Option<T> {
    match key_index(s, k) {
        Some(i) => Some(s[i].1),
        None => None,
    }
}

pub proof fn lemma_key_index<T>(s: Seq<(String, T)>, k: Seq<char>)
    ensures
        match key_index(s, k) {
            Some(i) => 0 <= i < s.len() && s[i].0@ == k && forall|j: int| 0 <= j < i ==> #[trigger] s[j].0@ != k,
            None => forall|j: int| 0 <= j < s.len() ==> #[trigger] s[j].0@ != k,
        },
    decreases s.len(),
{
    if s.len() > 0 && s[0].0@ != k {
        lemma_key_index(s.drop_first(), k);
        assert forall|j: int| 1 <= j < s.len() implies s.drop_first()[j - 1] == #[trigger] s[j] by {}
    }
}

/// The first index whose key is `k`, found by a scan.
fn find_key<T>(s: &Vec<(String, T)>, k: &str) -> (r: Option<usize>)
    ensures
        match r {
            Some(i) => key_index(s@, k@) == Some(i as int) && i < s@.len(),
            None => key_index(s@, k@) is None,
        },
{
    proof {
        lemma_key_index(s@, k@);
    }
    let mut i: usize = 0;
    while i < s.len()
        invariant
            i <= s@.len(),
            forall|j: int| 0 <= j < i ==> #[trigger] s@[j].0@ != k@,
            match key_index(s@, k@) {
                Some(m) => 0 <= m < s@.len() && s@[m].0@ == k@ && forall|j: int| 0 <= j < m ==> #[trigger] s@[j].0@ != k@,
                None => forall|j: int| 0 <= j < s@.len() ==> #[trigger] s@[j].0@ != k@,
            },
        decreases s.len() - i,
    {
        if str_eq(s[i].0.as_str(), k) {
            return Some(i);
        }
        i = i + 1;
    }
    None
}

/// The data cached for one node, by key.
#[derive(Clone, Debug)]
pub struct NodeData<V> {
    pub data: Vec<(String, V)>,
}

impl<V> NodeData<V> {
    /// No data.
    pub fn new() -> (d: Self)
        ensures
            d.data@.len() == 0,
    {
        NodeData { data: Vec::new() }
    }

    /// Whether nothing is cached.
    pub fn is_empty(&self) -> (r: bool)
        ensures
            r == (self.data@.len() == 0),
    {
        self.data.len() == 0
    }

    /// The value cached under `key`.
    pub fn get(&self, key: &str) -> (r: Option<&V>)
        ensures
            match r {
                Some(v) => lookup(self.data@, key@) == Some(*v),
                None => lookup(self.data@, key@) is None,
            },
    {
        match find_key(&self.data, key) {
            Some(i) => Some(&self.data[i].1),
            None => None,
        }
    }

    /// The value cached under `key`, for changing it.
    pub fn get_mut(&mut self, key: &str) -> (r: Option<&mut V>)
        ensures
            match key_index(old(self).data@, key@) {
                Some(i) => (r matches Some(v) && *v == old(self).data@[i].1
                    && final(self).data@ == old(self).data@.update(i, (old(self).data@[i].0, *final(v)))),
                None => r is None && final(self).data@ == old(self).data@,
            },
    {
        match find_key(&self.data, key) {
            Some(i) => Some(&mut self.data[i].1),
            None => None,
        }
    }

    /// Drop what is cached under `key`.
    pub fn remove(&mut self, key: &str)
        ensures
            final(self).data@ == without_key(old(self).data@, key@),
    {
        let mut data: Vec<(String, V)> = Vec::new();
        std::mem::swap(&mut data, &mut self.data);
        self.data = drop_key(data, key);
    }

    /// Cache `value` under `key`, returning the value it replaces.
    pub fn insert(&mut self, key: String, value: V) -> (old_value: Option<V>)
        ensures
            old_value == lookup(old(self).data@, key@),
            lookup(final(self).data@, key@) == Some(value),
            forall|k: Seq<char>| k != key@ ==> lookup(final(self).data@, k) == lookup(old(self).data@, k),
    {
        let ghost before = self.data@;
        let ghost kv = key@;
        let ghost val = value;
        proof {
            lemma_key_index(before, kv);
        }
        match find_key(&self.data, key.as_str()) {
            Some(i) => {
                let (k0, v0) = self.data.remove(i);
                self.data.insert(i, (k0, value));
                proof {
                    let after = self.data@;
                    assert(after =~= before.update(i as int, (before[i as int].0, val)));
                    lemma_key_index(after, kv);
                    assert forall|j: int| 0 <= j < after.len() implies #[trigger] after[j].0 == before[j].0 by {}
                    assert(key_index(after, kv) == Some(i as int)) by {
                        match key_index(after, kv) {
                            Some(m) => {
                                assert(after[m].0 == before[m].0);
                                if m < i {
                                } else if m > i {
                                    assert(after[i as int].0@ == kv);
                                }
                            },
                            None => {
                                assert(after[i as int].0@ == kv);
                            },
                        }
                    }
                    assert forall|k: Seq<char>| k != kv implies lookup(after, k) == lookup(before, k) by {
                        lemma_key_index(after, k);
                        lemma_key_index(before, k);
                        lemma_same_keys_same_index(before, after, k);
                        match key_index(before, k) {
                            Some(m) => {
                                assert(m != i);
                            },
                            None => {},
                        }
                    }
                }
                Some(v0)
            },
            None => {
                self.data.push((key, value));
                proof {
                    let after = self.data@;
                    lemma_key_index(after, kv);
                    lemma_push_index(before, (after.last().0, val), kv);
                    assert(after =~= before.push((after.last().0, val)));
                    assert forall|k: Seq<char>| k != kv implies lookup(after, k) == lookup(before, k) by {
                        lemma_push_index(before, (after.last().0, val), k);
                        lemma_key_index(before, k);
                        match key_index(before, k) {
                            Some(m) => {
                                assert(after[m] == before[m]);
                            },
                            None => {},
                        }
                    }
                }
                None
            },
        }
    }
}

/// Entries with the same keys in the same places have the same key positions.
pub proof fn lemma_same_keys_same_index<T>(a: Seq<(String, T)>, b: Seq<(String, T)>, k: Seq<char>)
    requires
        a.len() == b.len(),
        forall|j: int| 0 <= j < a.len() ==> #[trigger] a[j].0 == b[j].0,
    ensures
        key_index(a, k) == key_index(b, k),
    decreases a.len(),
{
    if a.len() > 0 {
        assert(a[0].0 == b[0].0);
        assert forall|j: int| 0 <= j < a.drop_first().len() implies #[trigger] a.drop_first()[j].0 == b.drop_first()[j].0 by {
            assert(a.drop_first()[j] == a[j + 1]);
            assert(b.drop_first()[j] == b[j + 1]);
        }
        lemma_same_keys_same_index(a.drop_first(), b.drop_first(), k);
    }
}

/// Appending an entry leaves the positions of earlier keys.
pub proof fn lemma_push_index<T>(s: Seq<(String, T)>, e: (String, T), k: Seq<char>)
    ensures
        key_index(s.push(e), k) == (match key_index(s, k) {
            Some(i) => Some(i),
            None => if e.0@ == k { Some(s.len() as int) } else { None },
        }),
    decreases s.len(),
{
    if s.len() > 0 {
        assert(s.push(e).drop_first() =~= s.drop_first().push(e));
        assert(s.push(e)[0] == s[0]);
        lemma_push_index(s.drop_first(), e, k);
    } else {
        assert(s.push(e).drop_first() =~= Seq::<(String, T)>::empty());
    }
}

/// The entries of `v` not keyed `k`, in order.
fn drop_key<T>(v: Vec<(String, T)>, k: &str) -> (r: Vec<(String, T)>)
    ensures
        r@ == without_key(v@, k@),
{
    let mut kept: Vec<(String, T)> = Vec::new();
    let mut rest = v;
    let ghost all = rest@;
    assert(all.skip(0) =~= all);
    while rest.len() > 0
        invariant
            rest@.len() <= all.len(),
            rest@ == all.skip(all.len() - rest@.len()),
            kept@ == without_key(all.take(all.len() - rest@.len()), k@),
        decreases rest@.len(),
    {
        let ghost n = all.len() - rest@.len();
        let e = rest.remove(0);
        proof {
            assert(rest@ =~= all.skip(n + 1));
            assert(e == all[n]);
            assert(all.take(n + 1) =~= all.take(n).push(all[n]));
        }
        let ghost t = all.take(n);
        let keep = !str_eq(e.0.as_str(), k);
        if keep {
            kept.push(e);
        }
        proof {
            reveal(Seq::filter);
            assert(t.push(all[n]).drop_last() =~= t);
            assert(without_key(t.push(all[n]), k@) == (if all[n].0@ != k@ {
                without_key(t, k@).push(all[n])
            } else {
                without_key(t, k@)
            }));
        }
    }
    assert(all.take(all.len() as int) =~= all);
    kept
}

/// Data cached per node.
#[derive(Clone, Debug)]
pub struct NodeDataCache<V> {
    pub entries: Vec<(String, NodeData<V>)>,
}

/// The entries not keyed `k`, in order.
pub open spec fn without_key<T>(s: Seq<(String, T)>, k: Seq<char>) -> Seq<(String, T)> {
    s.filter(|e: (String, T)| e.0@ != k)
}

impl<V> NodeDataCache<V> {
    /// An empty cache.
    pub fn new() -> (c: Self)
        ensures
            c.entries@.len() == 0,
    {
        NodeDataCache { entries: Vec::new() }
    }

    /// The data cached for `node_id`.
    pub fn get(&self, node_id: &str) -> (r: Option<&NodeData<V>>)
        ensures
            match r {
                Some(d) => lookup(self.entries@, node_id@) == Some(*d),
                None => lookup(self.entries@, node_id@) is None,
            },
    {
        match find_key(&self.entries, node_id) {
            Some(i) => Some(&self.entries[i].1),
            None => None,
        }
    }

    /// Whether data is cached for `node_id`.
    pub fn contains(&self, node_id: &str) -> (r: bool)
        ensures
            r == (lookup(self.entries@, node_id@) is Some),
    {
        find_key(&self.entries, node_id).is_some()
    }

    /// The data cached for `node_id`, for changing it.
    pub fn get_mut(&mut self, node_id: &str) -> (r: Option<&mut NodeData<V>>)
        ensures
            match key_index(old(self).entries@, node_id@) {
                Some(i) => (r matches Some(d) && *d == old(self).entries@[i].1
                    && final(self).entries@ == old(self).entries@.update(i, (old(self).entries@[i].0, *final(d)))),
                None => r is None && final(self).entries@ == old(self).entries@,
            },
    {
        match find_key(&self.entries, node_id) {
            Some(i) => Some(&mut self.entries[i].1),
            None => None,
        }
    }

    /// The data cached for `node_id`, created empty when there is none; an existing
    /// entry is kept as it is.
    pub fn get_or_insert(&mut self, node_id: &str) -> (r: &mut NodeData<V>)
        ensures
            match key_index(old(self).entries@, node_id@) {
                Some(i) => *r == old(self).entries@[i].1
                    && final(self).entries@ == old(self).entries@.update(i, (old(self).entries@[i].0, *final(r))),
                None => r.data@.len() == 0
                    && final(self).entries@.len() == old(self).entries@.len() + 1
                    && final(self).entries@.drop_last() == old(self).entries@
                    && final(self).entries@.last().0@ == node_id@
                    && final(self).entries@.last().1 == *final(r),
            },
    {
        match find_key(&self.entries, node_id) {
            Some(i) => &mut self.entries[i].1,
            None => {
                self.entries.push((owned(node_id), NodeData::new()));
                let n = self.entries.len();
                &mut self.entries[n - 1].1
            },
        }
    }

    /// Drop everything cached for `node_id`; nothing happens when there is nothing.
    pub fn invalidate(&mut self, node_id: &str)
        ensures
            final(self).entries@ == without_key(old(self).entries@, node_id@),
    {
        let mut entries: Vec<(String, NodeData<V>)> = Vec::new();
        std::mem::swap(&mut entries, &mut self.entries);
        self.entries = drop_key(entries, node_id);
    }
}

/// After `get_or_insert` creates a node's entry, looking the node up finds that
/// entry, so a second `get_or_insert` returns it instead of adding another.
pub proof fn lemma_inserted_entry_found<V>(s: Seq<(String, NodeData<V>)>, e: (String, NodeData<V>))
    requires
        key_index(s, e.0@) is None,
    ensures
        key_index(s.push(e), e.0@) == Some(s.len() as int),
        lookup(s.push(e), e.0@) == Some(e.1),
{
    lemma_push_index(s, e, e.0@);
}

/// After invalidating a node nothing is cached for it, and every other node keeps
/// its data.
pub proof fn lemma_invalidate<V>(s: Seq<(String, NodeData<V>)>, node: Seq<char>, other: Seq<char>)
    ensures
        lookup(without_key(s, node), node) is None,
        other != node ==> lookup(without_key(s, node), other) == lookup(s, other),
    decreases s.len(),
{
    reveal(Seq::filter);
    if s.len() > 0 {
        lemma_invalidate(s.drop_last(), node, other);
        let p = without_key(s.drop_last(), node);
        let x = s.last();
        assert(s =~= s.drop_last().push(x));
        lemma_push_index(p, x, node);
        lemma_push_index(p, x, other);
        lemma_push_index(s.drop_last(), x, other);
        lemma_key_index(p, node);
        lemma_key_index(p, other);
        lemma_key_index(s.drop_last(), other);
        if x.0@ != node {
            assert(without_key(s, node) == p.push(x));
            lemma_key_index(p.push(x), other);
        } else {
            assert(without_key(s, node) == p);
        }
    }
}

} // verus!
