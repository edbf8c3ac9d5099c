//! Storage iteration engine: cursor state for range scans.
//!
//! A `scan` snapshots the entries of the store that fall inside the
//! half-open range `[start, end)`, in ascending or descending key order,
//! and hands back an opaque handle.  `next` yields the entry under the
//! cursor and advances it; an exhausted cursor keeps signalling
//! end-of-iteration, and a disposed or unknown handle is invalid.

use vstd::prelude::*;

use crate::bytes::{lex_lt, lex_lt_exec, copy_bytes};
use crate::store::{KvStore, sorted, pair_views};

verus! {

/// Direction of a range scan.
#[derive(Clone, Copy, Debug, PartialEq, Eq, Structural)]
pub enum Order {
    Ascending,
    Descending,
}

/// Key `k` lies in the half-open range `[start, end)`; an absent bound
/// leaves that side unbounded.
pub open spec fn in_range(k: Seq<u8>, start: Option<Seq<u8>>, end: Option<Seq<u8>>) -> bool {
    &&& match start {
        Some(s) => !lex_lt(k, s),
        None => true,
    }
    &&& match end {
        Some(e) => lex_lt(k, e),
        None => true,
    }
}

/// The entries a scan over `s` with the given bounds and order visits,
/// in visiting order.
pub open spec fn scan_seq(
    s: Seq<(Seq<u8>, Seq<u8>)>,
    start: Option<Seq<u8>>,
    end: Option<Seq<u8>>,
    order: Order,
) -> Seq<(Seq<u8>, Seq<u8>)> {
    let asc = s.filter(|e: (Seq<u8>, Seq<u8>)| in_range(e.0, start, end));
    match order {
        Order::Ascending => asc,
        Order::Descending => asc.reverse(),
    }
}

/// The view of an optional key bound.
pub open spec fn bound_view(o: Option<Vec<u8>>) -> Option<Seq<u8>> {
    match o {
        Some(v) => Some(v@),
        None => None,
    }
}

/// Every entry of a filtered sequence is an entry of the original.
proof fn lemma_filter_subset(
    s: Seq<(Seq<u8>, Seq<u8>)>,
    pred: spec_fn((Seq<u8>, Seq<u8>)) -> bool,
)
    ensures
        forall|i: int|
            0 <= i < s.filter(pred).len() ==> s.contains(#[trigger] s.filter(pred)[i]),
    decreases s.len(),
{
    reveal(Seq::filter);
    if s.len() > 0 {
        let head = s.drop_last();
        lemma_filter_subset(head, pred);
        let f = s.filter(pred);
        let g = head.filter(pred);
        assert forall|i: int| 0 <= i < f.len() implies s.contains(#[trigger] f[i]) by {
            if pred(s.last()) && i == f.len() - 1 {
                assert(f[i] == s[s.len() - 1]);
            } else {
                assert(f[i] == g[i]);
                assert(head.contains(g[i]));
                let w = choose|w: int| 0 <= w < head.len() && head[w] == g[i];
                assert(s[w] == f[i]);
            }
        }
    }
}

/// An ascending scan of a sorted store visits keys in strictly
/// increasing order, every one inside the requested range.
pub proof fn lemma_scan_ordered(
    s: Seq<(Seq<u8>, Seq<u8>)>,
    start: Option<Seq<u8>>,
    end: Option<Seq<u8>>,
)
    requires
        sorted(s),
    ensures
        sorted(scan_seq(s, start, end, Order::Ascending)),
        forall|i: int|
            0 <= i < scan_seq(s, start, end, Order::Ascending).len()
                ==> in_range(#[trigger] scan_seq(s, start, end, Order::Ascending)[i].0, start, end),
    decreases s.len(),
{
    let pred = |e: (Seq<u8>, Seq<u8>)| in_range(e.0, start, end);
    let f = s.filter(pred);
    broadcast use vstd::seq_lib::group_filter_ensures;
    reveal(Seq::filter);
    if s.len() > 0 {
        let head = s.drop_last();
        assert(sorted(head)) by {
            assert forall|p: int, q: int| 0 <= p < q < head.len() implies
                lex_lt(#[trigger] head[p].0, #[trigger] head[q].0) by {
                assert(head[p] == s[p]);
                assert(head[q] == s[q]);
            }
        }
        lemma_scan_ordered(head, start, end);
        let g = head.filter(pred);
        
        if pred(s.last()) {
            assert(f =~= g.push(s.last()));
            assert forall|p: int, q: int| 0 <= p < q < f.len() implies
                lex_lt(#[trigger] f[p].0, #[trigger] f[q].0) by {
                if q < f.len() - 1 {
                    assert(g[p] == f[p] && g[q] == f[q]);
                } else {
                    assert(f[p] == g[p]);
                    lemma_filter_subset(head, pred);
                    assert(head.contains(g[p]));
                    let w = choose|w: int| 0 <= w < head.len() && head[w] == g[p];
                    assert(s[w] == g[p]);
                    assert(lex_lt(s[w].0, s[s.len() - 1].0));
                }
            }
        } else {
            assert(f =~= g);
        }
    }
}

/// Reversing the order of an otherwise identical scan yields exactly
/// the reverse sequence of entries.
pub proof fn lemma_scan_order_reversal(
    s: Seq<(Seq<u8>, Seq<u8>)>,
    start: Option<Seq<u8>>,
    end: Option<Seq<u8>>,
)
    ensures
        scan_seq(s, start, end, Order::Descending)
            == scan_seq(s, start, end, Order::Ascending).reverse(),
{
}

/// A scan visits exactly the in-range entries of the store: no entry is
/// invented, none inside the range is skipped.
pub proof fn lemma_scan_complete(
    s: Seq<(Seq<u8>, Seq<u8>)>,
    start: Option<Seq<u8>>,
    end: Option<Seq<u8>>,
)
    ensures
        forall|i: int|
            0 <= i < scan_seq(s, start, end, Order::Ascending).len()
                ==> s.contains(#[trigger] scan_seq(s, start, end, Order::Ascending)[i]),
        forall|i: int|
            0 <= i < s.len() && in_range((#[trigger] s[i]).0, start, end)
                ==> scan_seq(s, start, end, Order::Ascending).contains(s[i]),
{
    let pred = |e: (Seq<u8>, Seq<u8>)| in_range(e.0, start, end);
    broadcast use vstd::seq_lib::group_filter_ensures;
    lemma_filter_subset(s, pred);
    assert forall|i: int| 0 <= i < s.len() && in_range((#[trigger] s[i]).0, start, end)
        implies scan_seq(s, start, end, Order::Ascending).contains(s[i]) by {
        assert(s.contains(s[i]));
        assert(pred(s[i]));
    }
}

/// One live range scan: its snapshot, and how far it has advanced.
pub struct Cursor {
    pub entries: Vec<(Vec<u8>, Vec<u8>)>,
    pub pos: usize,
}

/// What `next` reports for a handle.
pub enum Step {
    /// The entry under the cursor.
    Entry { key: Vec<u8>, value: Vec<u8> },
    /// End of iteration: the scan is exhausted (not an error).
    Finished,
    /// The handle names no live scan.
    Invalid,
}

/// Arena of cursors, indexed by opaque handle.  Handles are never
/// reused: disposal leaves a hole.
pub struct Engine {
    pub cursors: Vec<Option<Cursor>>,
}

impl Engine {
    /// The handle names a live (not disposed, possibly exhausted) scan.
    pub open spec fn is_live(self, id: int) -> bool {
        0 <= id < self.cursors@.len() && self.cursors@[id] is Some
    }

    /// The snapshot the scan walks, in visiting order.
    pub open spec fn cursor_entries(self, id: int) -> Seq<(Seq<u8>, Seq<u8>)> {
        pair_views(self.cursors@[id].unwrap().entries@)
    }

    /// The cursor's position in its snapshot.
    pub open spec fn cursor_pos(self, id: int) -> int {
        self.cursors@[id].unwrap().pos as int
    }

    /// Cursor invariant: the position never runs past the snapshot.
    pub open spec fn wf(self) -> bool {
        forall|id: int|
            self.is_live(id) ==> #[trigger] self.cursor_pos(id) <= self.cursor_entries(id).len()
    }

    /// An engine with no scans.
    pub fn new() -> (e: Engine)
        ensures
            e.wf(),
            e.cursors@.len() == 0,
    {
        Engine { cursors: Vec::new() }
    }

    /// Open a scan over the store's current entries with the given
    /// bounds and order, and return its handle.
    #[verifier::loop_isolation(false)]
    pub fn scan(
        &mut self,
        store: &KvStore,
        start: &Option<Vec<u8>>,
        end: &Option<Vec<u8>>,
        order: Order,
    ) -> (id: u64)
        requires
            old(self).wf(),
        ensures
            final(self).wf(),
            id == old(self).cursors@.len(),
            final(self).cursors@.len() == old(self).cursors@.len() + 1,
            forall|j: int|
                0 <= j < old(self).cursors@.len()
                    ==> final(self).cursors@[j] == #[trigger] old(self).cursors@[j],
            final(self).is_live(id as int),
            final(self).cursor_entries(id as int)
                == scan_seq(store@, bound_view(*start), bound_view(*end), order),
            final(self).cursor_pos(id as int) == 0,
    {
        let ghost startv = bound_view(*start);
        let ghost endv = bound_view(*end);
        let ghost spred = |e: (Seq<u8>, Seq<u8>)| in_range(e.0, startv, endv);
        let mut picked: Vec<(Vec<u8>, Vec<u8>)> = Vec::new();
        proof {
            reveal(Seq::filter);
            assert(pair_views(picked@) =~= store@.take(0).filter(spred));
        }
        let mut i: usize = 0;
        while i < store.entries.len()
            invariant
                i <= store.entries@.len(),
                pair_views(picked@)
                    == store@.take(i as int).filter(spred),
            decreases store.entries@.len() - i,
        {
            let k = &store.entries[i].0;
            let mut inside = true;
            match start {
                Some(s) => {
                    if lex_lt_exec(k, s) {
                        inside = false;
                    }
                },
                None => {},
            }
            match end {
                Some(e) => {
                    if !lex_lt_exec(k, e) {
                        inside = false;
                    }
                },
                None => {},
            }
            assert(inside == in_range(store@[i as int].0, startv, endv));
            let ghost prev = pair_views(picked@);
            if inside {
                let key = copy_bytes(&store.entries[i].0);
                let value = copy_bytes(&store.entries[i].1);
                picked.push((key, value));
            }
            proof {
                reveal(Seq::filter);
                let cur = store@.take(i + 1);
                assert(cur.len() == i + 1);
                assert(cur.drop_last() =~= store@.take(i as int));
                assert(cur.last() == store@[i as int]);
                assert(cur.filter(spred) == if spred(cur.last()) {
                    cur.drop_last().filter(spred).push(cur.last())
                } else {
                    cur.drop_last().filter(spred)
                });
                assert(spred(cur.last()) == inside);
                if inside {
                    assert(pair_views(picked@)
                        =~= prev.push(store@[i as int]));
                } else {
                    assert(pair_views(picked@) =~= prev);
                }
            }
            i = i + 1;
        }
        proof {
            assert(store@.take(store@.len() as int) =~= store@);
        }
        let snapshot = match order {
            Order::Ascending => picked,
            Order::Descending => {
                let mut rev: Vec<(Vec<u8>, Vec<u8>)> = Vec::new();
                let ghost pv = pair_views(picked@);
                let mut j: usize = picked.len();
                while j > 0
                    invariant
                        j <= picked@.len(),
                        rev@.len() == picked@.len() - j,
                        forall|t: int|
                            0 <= t < rev@.len()
                                ==> #[trigger] pair_views(rev@)[t] == pv[pv.len() - 1 - t],
                    decreases j,
                {
                    j = j - 1;
                    let key = copy_bytes(&picked[j].0);
                    let value = copy_bytes(&picked[j].1);
                    let ghost prev = rev@;
                    rev.push((key, value));
                    proof {
                        assert forall|t: int| 0 <= t < rev@.len() implies
                            #[trigger] pair_views(rev@)[t] == pv[pv.len() - 1 - t] by {
                            if t < rev@.len() - 1 {
                                assert(rev@[t] == prev[t]);
                                assert(pair_views(prev)[t] == pv[pv.len() - 1 - t]);
                            } else {
                                assert(rev@[t] == (key, value));
                                assert(pair_views(picked@)[j as int] == (key@, value@));
                            }
                        }
                    }
                }
                proof {
                    assert(pair_views(rev@) =~= pv.reverse());
                }
                rev
            },
        };
        let id = self.cursors.len() as u64;
        self.cursors.push(Some(Cursor { entries: snapshot, pos: 0 }));
        proof {
            assert forall|j: int| self.is_live(j) implies
                #[trigger] self.cursor_pos(j) <= self.cursor_entries(j).len() by {
                if j < old(self).cursors@.len() {
                    assert(old(self).is_live(j));
                    assert(self.cursor_entries(j) == old(self).cursor_entries(j));
                    assert(self.cursor_pos(j) == old(self).cursor_pos(j));
                }
            }
        }
        id
    }

    /// Yield the entry under the cursor and advance it; report
    /// end-of-iteration idempotently once exhausted, and `Invalid` for a
    /// handle that names no live scan.
    pub fn next(&mut self, id: u64) -> (r: Step)
        requires
            old(self).wf(),
        ensures
            final(self).wf(),
            final(self).cursors@.len() == old(self).cursors@.len(),
            !old(self).is_live(id as int) ==> r is Invalid && *final(self) == *old(self),
            old(self).is_live(id as int) ==> {
                &&& final(self).is_live(id as int)
                &&& final(self).cursor_entries(id as int) == old(self).cursor_entries(id as int)
                &&& forall|j: int|
                    0 <= j < old(self).cursors@.len() && j != id
                        ==> final(self).cursors@[j] == #[trigger] old(self).cursors@[j]
                &&& if old(self).cursor_pos(id as int) < old(self).cursor_entries(id as int).len() {
                    &&& r matches Step::Entry { key, value }
                        && (key@, value@) == old(self).cursor_entries(id as int)[old(self).cursor_pos(id as int)]
                    &&& final(self).cursor_pos(id as int) == old(self).cursor_pos(id as int) + 1
                } else {
                    &&& r is Finished
                    &&& *final(self) == *old(self)
                }
            },
    {
        let n = self.cursors.len();
        if id >= n as u64 {
            return Step::Invalid;
        }
        let idx = id as usize;
        let live = self.cursors[idx].is_some();
        if !live {
            return Step::Invalid;
        }
        let (pos, len) = match &self.cursors[idx] {
            Some(c) => (c.pos, c.entries.len()),
            None => (0, 0),
        };
        if pos >= len {
            return Step::Finished;
        }
        let (key, value) = match &self.cursors[idx] {
            Some(c) => (copy_bytes(&c.entries[pos].0), copy_bytes(&c.entries[pos].1)),
            None => (Vec::new(), Vec::new()),
        };
        let entries = match self.cursors.remove(idx) {
            Some(c) => c.entries,
            None => Vec::new(),
        };
        self.cursors.insert(idx, Some(Cursor { entries, pos: pos + 1 }));
        proof {
            assert(self.cursors@ =~= old(self).cursors@.update(
                idx as int,
                self.cursors@[idx as int],
            ));
            assert(self.cursor_entries(idx as int) == old(self).cursor_entries(idx as int));
            assert forall|j: int| self.is_live(j) implies
                #[trigger] self.cursor_pos(j) <= self.cursor_entries(j).len() by {
                if j != idx {
                    assert(self.cursors@[j] == old(self).cursors@[j]);
                    assert(old(self).is_live(j));
                    assert(old(self).cursor_pos(j) <= old(self).cursor_entries(j).len());
                } else {
                    assert(self.cursor_pos(j) == pos + 1);
                    assert(self.cursor_entries(j).len() == len);
                }
            }
        }
        Step::Entry { key, value }
    }

    /// Release a handle; any later `next` on it is invalid.  Disposing
    /// an unknown or already disposed handle reports `false`.
    pub fn dispose(&mut self, id: u64) -> (r: bool)
        requires
            old(self).wf(),
        ensures
            final(self).wf(),
            r == old(self).is_live(id as int),
            final(self).cursors@.len() == old(self).cursors@.len(),
            !final(self).is_live(id as int),
            forall|j: int|
                0 <= j < old(self).cursors@.len() && j != id
                    ==> final(self).cursors@[j] == #[trigger] old(self).cursors@[j],
    {
        let n = self.cursors.len();
        if id >= n as u64 {
            return false;
        }
        let idx = id as usize;
        let live = self.cursors[idx].is_some();
        if !live {
            return false;
        }
        self.cursors.remove(idx);
        self.cursors.insert(idx, None);
        proof {
            assert(self.cursors@ =~= old(self).cursors@.update(idx as int, None));
            assert forall|j: int| self.is_live(j) implies
                #[trigger] self.cursor_pos(j) <= self.cursor_entries(j).len() by {
                assert(self.cursors@[j] == old(self).cursors@[j]);
                assert(old(self).is_live(j));
                assert(old(self).cursor_pos(j) <= old(self).cursor_entries(j).len());
            }
        }
        true
    }
}

} // verus!
