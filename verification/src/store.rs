//! Byte-keyed ordered key/value store.
//!
//! Entries are kept sorted by strictly increasing byte-lexicographic key
//! order, so the store and the iteration engine agree on one ordering.
//! Keys are unique; `write` overwrites, `remove` is idempotent and `read`
//! distinguishes an absent key from an empty value.

use vstd::prelude::*;

use crate::bytes::{lex_lt, lex_lt_exec, bytes_eq, lemma_lex_connected, lemma_lex_asym,
    lemma_lex_trans};

verus! {

/// The views of a vector of entries.
pub open spec fn pair_views(s: Seq<(Vec<u8>, Vec<u8>)>) -> Seq<(Seq<u8>, Seq<u8>)> {
    s.map_values(|e: (Vec<u8>, Vec<u8>)| (e.0@, e.1@))
}

/// Entries sorted by strictly increasing key order.
pub open spec fn sorted(s: Seq<(Seq<u8>, Seq<u8>)>) -> bool {
    forall|i: int, j: int|
        0 <= i < j < s.len() ==> lex_lt(#[trigger] s[i].0, #[trigger] s[j].0)
}

/// Some entry of `s` carries key `k`.
pub open spec fn store_has(s: Seq<(Seq<u8>, Seq<u8>)>, k: Seq<u8>) -> bool {
    exists|i: int| 0 <= i < s.len() && (#[trigger] s[i]).0 == k
}

/// The value stored under key `k` (meaningful only when `store_has`).
pub open spec fn store_get(s: Seq<(Seq<u8>, Seq<u8>)>, k: Seq<u8>) -> Seq<u8> {
    s[choose|i: int| 0 <= i < s.len() && (#[trigger] s[i]).0 == k].1
}

/// What a read of key `k` observes.
pub open spec fn store_read(s: Seq<(Seq<u8>, Seq<u8>)>, k: Seq<u8>) -> Option<Seq<u8>> {
    if store_has(s, k) {
        Some(store_get(s, k))
    } else {
        None
    }
}

/// How a store after `write(k, v)` relates to the store before it.
pub open spec fn write_effect(
    pre: Seq<(Seq<u8>, Seq<u8>)>,
    post: Seq<(Seq<u8>, Seq<u8>)>,
    k: Seq<u8>,
    v: Seq<u8>,
) -> bool {
    &&& sorted(post)
    &&& forall|x: Seq<u8>| #![auto] store_has(post, x) == (store_has(pre, x) || x == k)
    &&& store_read(post, k) == Some(v)
    &&& forall|x: Seq<u8>| #![auto] x != k ==> store_read(post, x) == store_read(pre, x)
}

/// How a store after `remove(k)` relates to the store before it.
pub open spec fn remove_effect(
    pre: Seq<(Seq<u8>, Seq<u8>)>,
    post: Seq<(Seq<u8>, Seq<u8>)>,
    k: Seq<u8>,
) -> bool {
    &&& sorted(post)
    &&& forall|x: Seq<u8>| #![auto] store_has(post, x) == (store_has(pre, x) && x != k)
    &&& forall|x: Seq<u8>| #![auto] x != k ==> store_read(post, x) == store_read(pre, x)
}

/// In a sorted store, a key occurs at most once.
pub proof fn lemma_sorted_key_unique(s: Seq<(Seq<u8>, Seq<u8>)>, i: int, j: int)
    requires
        sorted(s),
        0 <= i < s.len(),
        0 <= j < s.len(),
        s[i].0 == s[j].0,
    ensures
        i == j,
{
    if i < j {
        lemma_lex_asym(s[i].0, s[j].0);
    }
    if j < i {
        lemma_lex_asym(s[j].0, s[i].0);
    }
}

/// A written key is read back exactly as written.
pub proof fn lemma_read_after_write(
    pre: Seq<(Seq<u8>, Seq<u8>)>,
    post: Seq<(Seq<u8>, Seq<u8>)>,
    k: Seq<u8>,
    v: Seq<u8>,
)
    requires
        write_effect(pre, post, k, v),
    ensures
        store_read(post, k) == Some(v),
{
}

/// After a removal the key reads as absent, whether or not it was there.
pub proof fn lemma_read_after_remove(
    pre: Seq<(Seq<u8>, Seq<u8>)>,
    post: Seq<(Seq<u8>, Seq<u8>)>,
    k: Seq<u8>,
)
    requires
        remove_effect(pre, post, k),
    ensures
        store_read(post, k) is None,
{
}

/// The ordered byte-keyed key/value store.
pub struct KvStore {
    pub entries: Vec<(Vec<u8>, Vec<u8>)>,
}

impl View for KvStore {
    type V = Seq<(Seq<u8>, Seq<u8>)>;

    open spec fn view(&self) -> Seq<(Seq<u8>, Seq<u8>)> {
        pair_views(self.entries@)
    }
}

impl KvStore {
    /// The store's invariant: keys strictly increase.
    pub open spec fn wf(self) -> bool {
        sorted(self@)
    }

    /// An empty store.
    pub fn new() -> (s: KvStore)
        ensures
            s.wf(),
            s@ =~= Seq::<(Seq<u8>, Seq<u8>)>::empty(),
    {
        KvStore { entries: Vec::new() }
    }

    /// Index of the first entry whose key is not below `key`.
    fn lower_bound(&self, key: &Vec<u8>) -> (i: usize)
        requires
            self.wf(),
        ensures
            i <= self@.len(),
            forall|j: int| 0 <= j < i ==> lex_lt(#[trigger] self@[j].0, key@),
            i < self@.len() ==> !lex_lt(self@[i as int].0, key@),
    {
        let mut i: usize = 0;
        while i < self.entries.len()
            invariant
                self.wf(),
                i <= self@.len(),
                forall|j: int| 0 <= j < i ==> lex_lt(#[trigger] self@[j].0, key@),
            decreases self@.len() - i,
        {
            if !lex_lt_exec(&self.entries[i].0, key) {
                return i;
            }
            i = i + 1;
        }
        i
    }

    /// Store `value` under `key`, overwriting any existing value.
    pub fn write(&mut self, key: Vec<u8>, value: Vec<u8>)
        requires
            old(self).wf(),
        ensures
            final(self).wf(),
            write_effect(old(self)@, final(self)@, key@, value@),
    {
        let ghost pre = self@;
        let i = self.lower_bound(&key);
        if i < self.entries.len() && bytes_eq(&self.entries[i].0, &key) {
            self.entries[i] = (key, value);
            proof {
                let post = self@;
                assert(post =~= pre.update(i as int, (key@, value@)));
                assert forall|x: Seq<u8>| #[trigger]
                    store_has(post, x) == (store_has(pre, x) || x == key@) by {
                    if store_has(post, x) {
                        let w = choose|w: int| 0 <= w < post.len() && (#[trigger] post[w]).0 == x;
                        if w != i {
                            assert(pre[w].0 == x);
                        }
                    }
                    if store_has(pre, x) {
                        let w = choose|w: int| 0 <= w < pre.len() && (#[trigger] pre[w]).0 == x;
                        if w == i {
                            assert(post[w].0 == key@);
                        } else {
                            assert(post[w].0 == x);
                        }
                    }
                    if x == key@ {
                        assert(post[i as int].0 == x);
                    }
                }
                assert(sorted(post)) by {
                    assert forall|p: int, q: int| 0 <= p < q < post.len() implies
                        lex_lt(#[trigger] post[p].0, #[trigger] post[q].0) by {
                        assert(post[p].0 == pre[p].0);
                        assert(post[q].0 == pre[q].0);
                    }
                }
                assert(store_get(post, key@) == value@) by {
                    assert(post[i as int].0 == key@);
                    assert(store_has(post, key@));
                    let w = choose|w: int| 0 <= w < post.len() && (#[trigger] post[w]).0 == key@;
                    lemma_sorted_key_unique(post, w, i as int);
                }
                assert forall|x: Seq<u8>| x != key@ implies
                    #[trigger] store_read(post, x) == store_read(pre, x) by {
                    if store_has(post, x) {
                        let w = choose|w: int| 0 <= w < post.len() && (#[trigger] post[w]).0 == x;
                        assert(w != i);
                        assert(pre[w].0 == x);
                        let w2 = choose|w2: int| 0 <= w2 < pre.len() && (#[trigger] pre[w2]).0 == x;
                        lemma_sorted_key_unique(pre, w, w2);
                        assert(store_get(post, x) == post[w].1);
                        assert(store_get(pre, x) == pre[w].1);
                    }
                }
            }
        } else {
            proof {
                if i < pre.len() {
                    lemma_lex_connected(pre[i as int].0, key@);
                    assert(lex_lt(key@, pre[i as int].0));
                }
            }
            self.entries.insert(i, (key, value));
            proof {
                let post = self@;
                assert(post =~= pre.insert(i as int, (key@, value@)));
                assert forall|j: int| 0 <= j < post.len() implies
                    (#[trigger] post[j]) == (if j < i {
                        pre[j]
                    } else if j == i {
                        (key@, value@)
                    } else {
                        pre[j - 1]
                    }) by {}
                assert(sorted(post)) by {
                    assert forall|p: int, q: int| 0 <= p < q < post.len() implies
                        lex_lt(#[trigger] post[p].0, #[trigger] post[q].0) by {
                        if p < i && q == i {
                            assert(lex_lt(pre[p].0, key@));
                        } else if p == i && q > i {
                            if q - 1 == i {
                                assert(lex_lt(key@, pre[i as int].0));
                            } else {
                                lemma_lex_trans(key@, pre[i as int].0, pre[q - 1].0);
                            }
                        } else if p < i && q > i {
                            assert(lex_lt(pre[p].0, pre[q - 1].0));
                        }
                    }
                }
                assert forall|x: Seq<u8>| #[trigger]
                    store_has(post, x) == (store_has(pre, x) || x == key@) by {
                    if store_has(post, x) {
                        let w = choose|w: int| 0 <= w < post.len() && (#[trigger] post[w]).0 == x;
                        if w < i {
                            assert(pre[w].0 == x);
                        } else if w > i {
                            assert(pre[w - 1].0 == x);
                        }
                    }
                    if store_has(pre, x) {
                        let w = choose|w: int| 0 <= w < pre.len() && (#[trigger] pre[w]).0 == x;
                        if w < i {
                            assert(post[w].0 == x);
                        } else {
                            assert(post[w + 1].0 == x);
                        }
                    }
                    if x == key@ {
                        assert(post[i as int].0 == x);
                    }
                }
                assert(store_get(post, key@) == value@) by {
                    assert(post[i as int].0 == key@);
                    assert(store_has(post, key@));
                    let w = choose|w: int| 0 <= w < post.len() && (#[trigger] post[w]).0 == key@;
                    lemma_sorted_key_unique(post, w, i as int);
                }
                assert forall|x: Seq<u8>| x != key@ implies
                    #[trigger] store_read(post, x) == store_read(pre, x) by {
                    if store_has(post, x) {
                        let w = choose|w: int| 0 <= w < post.len() && (#[trigger] post[w]).0 == x;
                        assert(w != i);
                        let v = if w < i { w } else { w - 1 };
                        assert(pre[v].0 == x);
                        let w2 = choose|w2: int| 0 <= w2 < pre.len() && (#[trigger] pre[w2]).0 == x;
                        lemma_sorted_key_unique(pre, v, w2);
                        assert(store_get(post, x) == post[w].1);
                        assert(store_get(pre, x) == pre[v].1);
                    }
                }
            }
        }
    }

    /// Read the value under `key`; an absent key is `None`, distinct from
    /// an empty value.
    pub fn read(&self, key: &Vec<u8>) -> (r: Option<Vec<u8>>)
        requires
            self.wf(),
        ensures
            match r {
                Some(v) => store_read(self@, key@) == Some(v@),
                None => store_read(self@, key@) is None,
            },
    {
        let i = self.lower_bound(key);
        if i < self.entries.len() && bytes_eq(&self.entries[i].0, key) {
            let v = self.entries[i].1.clone();
            proof {
                assert(self@[i as int].0 == key@);
                let w = choose|w: int| 0 <= w < self@.len() && (#[trigger] self@[w]).0 == key@;
                lemma_sorted_key_unique(self@, w, i as int);
                assert(v@ == self@[i as int].1);
            }
            Some(v)
        } else {
            proof {
                let s = self@;
                if store_has(s, key@) {
                    let w = choose|w: int| 0 <= w < s.len() && (#[trigger] s[w]).0 == key@;
                    lemma_lex_asym(s[w].0, key@);
                    assert(w >= i);
                    if w > i {
                        assert(lex_lt(s[i as int].0, s[w].0));
                    }
                    assert(false);
                }
            }
            None
        }
    }

    /// Delete the entry under `key` if present; absence is not an error.
    pub fn remove(&mut self, key: &Vec<u8>)
        requires
            old(self).wf(),
        ensures
            final(self).wf(),
            remove_effect(old(self)@, final(self)@, key@),
    {
        let ghost pre = self@;
        let i = self.lower_bound(key);
        if i < self.entries.len() && bytes_eq(&self.entries[i].0, key) {
            self.entries.remove(i);
            proof {
                let post = self@;
                assert(post =~= pre.remove(i as int));
                assert forall|j: int| 0 <= j < post.len() implies
                    (#[trigger] post[j]) == (if j < i {
                        pre[j]
                    } else {
                        pre[j + 1]
                    }) by {}
                assert(sorted(post)) by {
                    assert forall|p: int, q: int| 0 <= p < q < post.len() implies
                        lex_lt(#[trigger] post[p].0, #[trigger] post[q].0) by {
                        let p2 = if p < i { p } else { p + 1 };
                        let q2 = if q < i { q } else { q + 1 };
                        assert(lex_lt(pre[p2].0, pre[q2].0));
                    }
                }
                assert forall|x: Seq<u8>| #[trigger]
                    store_has(post, x) == (store_has(pre, x) && x != key@) by {
                    if store_has(post, x) {
                        let w = choose|w: int| 0 <= w < post.len() && (#[trigger] post[w]).0 == x;
                        let v = if w < i { w } else { w + 1 };
                        assert(pre[v].0 == x);
                        if x == key@ {
                            lemma_sorted_key_unique(pre, v, i as int);
                        }
                    }
                    if store_has(pre, x) && x != key@ {
                        let w = choose|w: int| 0 <= w < pre.len() && (#[trigger] pre[w]).0 == x;
                        assert(w != i);
                        if w < i {
                            assert(post[w].0 == x);
                        } else {
                            assert(post[w - 1].0 == x);
                        }
                    }
                }
                assert forall|x: Seq<u8>| x != key@ implies
                    #[trigger] store_read(post, x) == store_read(pre, x) by {
                    if store_has(post, x) {
                        let w = choose|w: int| 0 <= w < post.len() && (#[trigger] post[w]).0 == x;
                        let v = if w < i { w } else { w + 1 };
                        assert(pre[v].0 == x);
                        let w2 = choose|w2: int| 0 <= w2 < pre.len() && (#[trigger] pre[w2]).0 == x;
                        lemma_sorted_key_unique(pre, v, w2);
                        assert(store_get(post, x) == post[w].1);
                        assert(store_get(pre, x) == pre[v].1);
                    }
                }
            }
        } else {
            proof {
                let s = self@;
                if store_has(s, key@) {
                    let w = choose|w: int| 0 <= w < s.len() && (#[trigger] s[w]).0 == key@;
                    lemma_lex_asym(s[w].0, key@);
                    assert(w >= i);
                    if w > i {
                        assert(lex_lt(s[i as int].0, s[w].0));
                    }
                    assert(false);
                }
            }
        }
    }
}

} // verus!
