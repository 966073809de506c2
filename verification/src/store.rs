//! Typed value store: a registry of named scalar values that a polling
//! thread publishes and a rendering thread samples.
//!
//! A stored value carries a type tag (`StoredValue`), and reading it back
//! requires asking for the same tag again; asking for a different tag yields
//! `None`, never a crash. Lightweight handles (`Value`) remember only the
//! key string, so a handle stays valid exactly as long as its key exists in
//! the store it is handed to. The store itself is not synchronized: callers
//! hold an external lock around any sequence of operations that must be
//! consistent.

use vstd::prelude::*;

verus! {

/// A type-tagged scalar value. The tag is part of the value: loading a
/// stored value back under a different tag fails softly with `None`,
/// mirroring a failed dynamic downcast. Floating-point values travel as
/// their raw bit patterns.
pub enum StoredValue {
    Bool(bool),
    I32(i32),
    I64(i64),
    U32(u32),
    U64(u64),
    Text(String),
    F32Bits(u32),
    F64Bits(u64),
}

impl StoredValue {
    /// The boolean inside, if this value was stored as a boolean.
    pub fn as_bool(&self) -> (r: Option<bool>)
        ensures
            r == (match *self {
                StoredValue::Bool(b) => Some(b),
                _ => None::<bool>,
            }),
    {
        match self {
            StoredValue::Bool(b) => Some(*b),
            _ => None,
        }
    }

    /// The `i32` inside, if this value was stored as an `i32`.
    pub fn as_i32(&self) -> (r: Option<i32>)
        ensures
            r == (match *self {
                StoredValue::I32(v) => Some(v),
                _ => None::<i32>,
            }),
    {
        match self {
            StoredValue::I32(v) => Some(*v),
            _ => None,
        }
    }

    /// The `i64` inside, if this value was stored as an `i64`.
    pub fn as_i64(&self) -> (r: Option<i64>)
        ensures
            r == (match *self {
                StoredValue::I64(v) => Some(v),
                _ => None::<i64>,
            }),
    {
        match self {
            StoredValue::I64(v) => Some(*v),
            _ => None,
        }
    }

    /// The `u32` inside, if this value was stored as a `u32`.
    pub fn as_u32(&self) -> (r: Option<u32>)
        ensures
            r == (match *self {
                StoredValue::U32(v) => Some(v),
                _ => None::<u32>,
            }),
    {
        match self {
            StoredValue::U32(v) => Some(*v),
            _ => None,
        }
    }

    /// The `u64` inside, if this value was stored as a `u64`.
    pub fn as_u64(&self) -> (r: Option<u64>)
        ensures
            r == (match *self {
                StoredValue::U64(v) => Some(v),
                _ => None::<u64>,
            }),
    {
        match self {
            StoredValue::U64(v) => Some(*v),
            _ => None,
        }
    }

    /// The text inside, if this value was stored as text.
    pub fn as_text(&self) -> (r: Option<&String>)
        ensures
            match r {
                Some(s) => *self matches StoredValue::Text(t) && *s == t,
                None => !(*self matches StoredValue::Text(_)),
            },
    {
        match self {
            StoredValue::Text(s) => Some(s),
            _ => None,
        }
    }

    /// The raw bits of the 32-bit float inside, if this value was stored as
    /// one.
    pub fn as_f32_bits(&self) -> (r: Option<u32>)
        ensures
            r == (match *self {
                StoredValue::F32Bits(v) => Some(v),
                _ => None::<u32>,
            }),
    {
        match self {
            StoredValue::F32Bits(v) => Some(*v),
            _ => None,
        }
    }

    /// The raw bits of the 64-bit float inside, if this value was stored as
    /// one.
    pub fn as_f64_bits(&self) -> (r: Option<u64>)
        ensures
            r == (match *self {
                StoredValue::F64Bits(v) => Some(v),
                _ => None::<u64>,
            }),
    {
        match self {
            StoredValue::F64Bits(v) => Some(*v),
            _ => None,
        }
    }
}

struct Entry {
    key: String,
    val: StoredValue,
}

spec fn has_key(s: Seq<Entry>, k: Seq<char>) -> bool {
    exists|i: int| 0 <= i < s.len() && #[trigger] s[i].key@ == k
}

spec fn value_of(s: Seq<Entry>, k: Seq<char>) -> StoredValue {
    s[choose|i: int| 0 <= i < s.len() && #[trigger] s[i].key@ == k].val
}

spec fn unique_keys(s: Seq<Entry>) -> bool {
    forall|i: int, j: int| 0 <= i < j < s.len() ==> #[trigger] s[i].key@ != #[trigger] s[j].key@
}

proof fn lemma_value_at(s: Seq<Entry>, k: Seq<char>, i: int)
    requires
        unique_keys(s),
        0 <= i < s.len(),
        s[i].key@ == k,
    ensures
        has_key(s, k),
        value_of(s, k) == s[i].val,
{
    let w = choose|j: int| 0 <= j < s.len() && #[trigger] s[j].key@ == k;
    if w != i {
        if w < i {
            assert(s[w].key@ != s[i].key@);
        } else {
            assert(s[i].key@ != s[w].key@);
        }
    }
}

/// A registry from string keys to type-tagged values. At most one entry per
/// key; inserting under an existing key overwrites its value.
pub struct ValueStore {
    entries: Vec<Entry>,
}

impl View for ValueStore {
    type V = Map<Seq<char>, StoredValue>;

    /// The store, seen as a map from key text to stored value.
    closed spec fn view(&self) -> Map<Seq<char>, StoredValue> {
        Map::new(|k: Seq<char>| has_key(self.entries@, k), |k: Seq<char>| value_of(self.entries@, k))
    }
}

impl ValueStore {
    /// Internal invariant: no key occurs twice.
    pub closed spec fn wf(self) -> bool {
        unique_keys(self.entries@)
    }

    /// An empty store.
    pub fn new() -> (r: Self)
        ensures
            r.wf(),
            r@ == Map::<Seq<char>, StoredValue>::empty(),
    {
        let r = ValueStore { entries: Vec::new() };
        proof {
            assert(r@ =~= Map::<Seq<char>, StoredValue>::empty());
        }
        r
    }

    /// The position of `key` in the backing storage, if it is present.
    fn find_index(&self, key: &str) -> (r: Option<usize>)
        ensures
            match r {
                Some(i) => i < self.entries@.len() && self.entries@[i as int].key@ == key@,
                None => !has_key(self.entries@, key@),
            },
    {
        let wanted: String = key.to_owned();
        let n = self.entries.len();
        let mut i: usize = 0;
        while i < n
            invariant
                i <= n,
                n == self.entries@.len(),
                wanted@ == key@,
                forall|j: int| 0 <= j < i ==> #[trigger] self.entries@[j].key@ != key@,
            decreases n - i,
        {
            if self.entries[i].key == wanted {
                return Some(i);
            }
            i = i + 1;
        }
        None
    }

    /// A handle for `key`. The store is not consulted: the handle is valid
    /// only as long as the key exists in the store it is later passed to.
    pub fn get(&self, key: &str) -> (h: Value)
        ensures
            h.key@ == key@,
    {
        Value { key: key.to_owned() }
    }

    /// Store `v` under `key`, overwriting any prior value there, and hand
    /// back a handle for later loads and replacements.
    pub fn insert(&mut self, key: &str, v: StoredValue) -> (h: Value)
        requires
            old(self).wf(),
        ensures
            final(self).wf(),
            final(self)@ == old(self)@.insert(key@, v),
            h.key@ == key@,
    {
        Value::new(key, v, self)
    }
}

/// A lightweight shared handle: remembers only the key string under which a
/// value was stored.
pub struct Value {
    pub key: String,
}

impl Value {
    /// Store `v` under `key` in `store` and build the handle for that key.
    pub fn new(key: &str, v: StoredValue, store: &mut ValueStore) -> (h: Value)
        requires
            old(store).wf(),
        ensures
            final(store).wf(),
            final(store)@ == old(store)@.insert(key@, v),
            h.key@ == key@,
    {
        let ghost pre = store.entries@;
        match store.find_index(key) {
            Some(i) => {
                store.entries.set(i, Entry { key: key.to_owned(), val: v });
                proof {
                    let post = store.entries@;
                    assert forall|a: int, b: int| 0 <= a < b < post.len() implies #[trigger] post[a].key@
                        != #[trigger] post[b].key@ by {
                        assert(pre[a].key@ != pre[b].key@);
                    }
                    assert forall|k: Seq<char>| true implies (has_key(post, k) == old(store)@.insert(
                        key@,
                        v,
                    ).dom().contains(k)) && (has_key(post, k) ==> value_of(post, k) == old(store)@.insert(
                        key@,
                        v,
                    )[k]) by {
                        if k == key@ {
                            lemma_value_at(post, k, i as int);
                        } else {
                            if has_key(pre, k) {
                                let w = choose|j: int|
                                    0 <= j < pre.len() && #[trigger] pre[j].key@ == k;
                                assert(post[w].key@ == k);
                                lemma_value_at(post, k, w);
                                lemma_value_at(pre, k, w);
                            } else {
                                assert forall|j: int| 0 <= j < post.len() implies #[trigger] post[j].key@
                                    != k by {
                                    assert(pre[j].key@ == post[j].key@ || j == i);
                                }
                            }
                        }
                    }
                    assert(store@ =~= old(store)@.insert(key@, v));
                }
            },
            None => {
                store.entries.push(Entry { key: key.to_owned(), val: v });
                proof {
                    let post = store.entries@;
                    assert forall|a: int, b: int| 0 <= a < b < post.len() implies #[trigger] post[a].key@
                        != #[trigger] post[b].key@ by {
                        if b < pre.len() {
                            assert(pre[a].key@ != pre[b].key@);
                        } else {
                            assert(post[b].key@ == key@);
                            assert(!has_key(pre, key@));
                            assert(pre[a].key@ != key@);
                        }
                    }
                    assert forall|k: Seq<char>| true implies (has_key(post, k) == old(store)@.insert(
                        key@,
                        v,
                    ).dom().contains(k)) && (has_key(post, k) ==> value_of(post, k) == old(store)@.insert(
                        key@,
                        v,
                    )[k]) by {
                        if k == key@ {
                            lemma_value_at(post, k, pre.len() as int);
                        } else {
                            if has_key(pre, k) {
                                let w = choose|j: int|
                                    0 <= j < pre.len() && #[trigger] pre[j].key@ == k;
                                assert(post[w].key@ == k);
                                lemma_value_at(post, k, w);
                                lemma_value_at(pre, k, w);
                            } else {
                                assert forall|j: int| 0 <= j < post.len() implies #[trigger] post[j].key@
                                    != k by {
                                    if j < pre.len() {
                                        assert(pre[j].key@ == post[j].key@);
                                    }
                                }
                            }
                        }
                    }
                    assert(store@ =~= old(store)@.insert(key@, v));
                }
            },
        }
        Value { key: key.to_owned() }
    }

    /// The value stored under this handle's key, or `None` if the key has
    /// been removed or was never inserted.
    pub fn load<'a>(&self, store: &'a ValueStore) -> (r: Option<&'a StoredValue>)
        requires
            store.wf(),
        ensures
            match r {
                Some(v) => store@.dom().contains(self.key@) && *v == store@[self.key@],
                None => !store@.dom().contains(self.key@),
            },
    {
        match store.find_index(self.key.as_str()) {
            Some(i) => {
                proof {
                    lemma_value_at(store.entries@, self.key@, i as int);
                }
                Some(&store.entries[i].val)
            },
            None => None,
        }
    }

    /// Remove and reinsert under the same key, changing the stored value
    /// (and possibly its tag).
    pub fn replace(&mut self, v: StoredValue, store: &mut ValueStore)
        requires
            old(store).wf(),
        ensures
            final(store).wf(),
            final(store)@ == old(store)@.insert(old(self).key@, v),
            final(self).key@ == old(self).key@,
    {
        let _ = store.insert(self.key.as_str(), v);
    }
}

} // verus!
