use vstd::prelude::*;

use crate::persistence::table::{
    contains_u64, distinct_keys, has_key, lemma_distinct_push, lemma_row_for_absent,
    lemma_row_for_has_key, lemma_row_for_member, row_for, select_by_idevent,
};
use crate::persistence::models::Row;

verus! {

/// A per-request batch loader for one table: it deduplicates requested event
/// ids, issues at most one batched table lookup per `load` call, and caches
/// what that lookup returned. One loader instance belongs to one inbound API
/// call and to one table; `queries` counts the batched lookups it has issued.
pub struct BatchLoader<V> {
    pub entries: Vec<V>,
    pub queries: u64,
}

impl<V: Row> BatchLoader<V> {
    /// The cache never holds two rows for one event id.
    pub open spec fn wf(self) -> bool {
        distinct_keys(self.entries@)
    }

    /// Every cached row was read from `table`.
    pub open spec fn coherent(self, table: Seq<V>) -> bool {
        forall|i: int| 0 <= i < self.entries@.len() ==> table.contains(#[trigger] self.entries@[i])
    }

    /// The loader has already fetched a row for the id `k`.
    pub open spec fn cached(self, k: u64) -> bool {
        has_key(self.entries@, k)
    }

    /// A fresh loader for one inbound API call: empty cache, no query issued.
    pub fn new() -> (r: Self)
        ensures
            r.entries@.len() == 0,
            r.queries == 0,
            r.wf(),
    {
        BatchLoader { entries: Vec::new(), queries: 0 }
    }

    /// Answer `k` from the cache alone.
    fn find(&self, k: u64) -> (r: Option<V>)
        ensures
            r == row_for(self.entries@, k),
    {
        let n = self.entries.len();
        proof {
            assert(self.entries@.skip(0) =~= self.entries@);
        }
        let mut i: usize = 0;
        while i < n
            invariant
                0 <= i <= n,
                n == self.entries@.len(),
                row_for(self.entries@, k) == row_for(self.entries@.skip(i as int), k),
            decreases n - i,
        {
            let ghost rest = self.entries@.skip(i as int);
            proof {
                assert(rest[0] == self.entries@[i as int]);
                assert(rest.drop_first() =~= self.entries@.skip(i as int + 1));
            }
            if self.entries[i].key() == k {
                return Some(self.entries[i].clone_row());
            }
            i += 1;
        }
        proof {
            assert(self.entries@.skip(n as int) =~= Seq::<V>::empty());
        }
        None
    }

    /// The deduplicated requested ids that the cache does not hold yet: the
    /// keys the one batched query will ask for.
    fn missing_keys(&self, keys: &Vec<u64>) -> (m: Vec<u64>)
        ensures
            m@.no_duplicates(),
            forall|k: u64| #[trigger] m@.contains(k) <==> (keys@.contains(k) && !self.cached(k)),
    {
        let mut m: Vec<u64> = Vec::new();
        let mut i: usize = 0;
        while i < keys.len()
            invariant
                0 <= i <= keys@.len(),
                m@.no_duplicates(),
                forall|k: u64| #[trigger]
                    m@.contains(k) <==> (keys@.take(i as int).contains(k) && !self.cached(k)),
            decreases keys@.len() - i,
        {
            let ghost prev = m@;
            let k = keys[i];
            let cached_here = match self.find(k) {
                Some(_) => true,
                None => false,
            };
            proof {
                lemma_row_for_has_key(self.entries@, k);
            }
            if !cached_here && !contains_u64(&m, k) {
                m.push(k);
            }
            proof {
                let t2 = keys@.take(i as int + 1);
                assert(t2 =~= keys@.take(i as int).push(keys@[i as int]));
                assert forall|k2: u64| #[trigger] m@.contains(k2) implies (t2.contains(k2)
                    && !self.cached(k2)) by {
                    if prev.contains(k2) {
                        let a = choose|a: int|
                            0 <= a < keys@.take(i as int).len() && keys@.take(i as int)[a] == k2;
                        assert(t2[a] == k2);
                    } else {
                        assert(m@[m@.len() - 1] == k2);
                        assert(t2[t2.len() - 1] == k2);
                    }
                }
                assert forall|k2: u64| t2.contains(k2) && !self.cached(k2) implies m@.contains(
                    k2,
                ) by {
                    let a = choose|a: int| 0 <= a < t2.len() && t2[a] == k2;
                    if a < i as int {
                        assert(keys@.take(i as int)[a] == k2);
                        assert(prev.contains(k2));
                        let b = choose|b: int| 0 <= b < prev.len() && prev[b] == k2;
                        assert(m@[b] == k2);
                    } else {
                        assert(k2 == keys@[i as int]);
                        if prev.contains(k2) {
                            let b = choose|b: int| 0 <= b < prev.len() && prev[b] == k2;
                            assert(m@[b] == k2);
                        } else {
                            assert(m@[m@.len() - 1] == k2);
                        }
                    }
                }
            }
            i += 1;
        }
        proof {
            assert(keys@.take(keys@.len() as int) =~= keys@);
        }
        m
    }

    /// Admit the rows the one batched query returned, counting that query.
    fn fill(&mut self, rows: Vec<V>)
        requires
            old(self).wf(),
            old(self).queries < u64::MAX,
            distinct_keys(rows@),
            forall|i: int|
                0 <= i < rows@.len() ==> !old(self).cached((#[trigger] rows@[i]).spec_key()),
        ensures
            final(self).wf(),
            final(self).entries@ == old(self).entries@ + rows@,
            final(self).queries == old(self).queries + 1,
    {
        let ghost orig = self.entries@;
        let n = rows.len();
        let mut i: usize = 0;
        while i < n
            invariant
                0 <= i <= n,
                n == rows@.len(),
                distinct_keys(rows@),
                forall|j: int| 0 <= j < rows@.len() ==> !has_key(orig, (#[trigger] rows@[j]).spec_key()),
                self.entries@ == orig + rows@.take(i as int),
                distinct_keys(self.entries@),
                self.queries == old(self).queries,
            decreases n - i,
        {
            proof {
                let cur = self.entries@;
                let row = rows@[i as int];
                assert(!has_key(cur, row.spec_key())) by {
                    if has_key(cur, row.spec_key()) {
                        let a = choose|a: int|
                            0 <= a < cur.len() && (#[trigger] cur[a]).spec_key()
                                == row.spec_key();
                        if a < orig.len() {
                            assert(cur[a] == orig[a]);
                            assert(has_key(orig, row.spec_key()));
                        } else {
                            assert(cur[a] == rows@.take(i as int)[a - orig.len()]);
                            assert(rows@[a - orig.len()] == cur[a]);
                        }
                    }
                };
                lemma_distinct_push(cur, row);
                assert(cur.push(row) =~= orig + rows@.take(i as int + 1));
            }
            self.entries.push(rows[i].clone_row());
            i += 1;
        }
        proof {
            assert(rows@.take(n as int) =~= rows@);
        }
        self.queries = self.queries + 1;
    }

    /// Resolve a burst of requested event ids against `table` in one batch.
    ///
    /// For each requested id the result holds the table's row or an explicit
    /// absence. However many ids the burst holds, at most one batched table
    /// lookup is issued, and none at all when every id is already cached:
    /// the batching guarantee of the loader.
    pub fn load(&mut self, table: &Vec<V>, keys: &Vec<u64>) -> (r: Vec<Option<V>>)
        requires
            old(self).wf(),
            old(self).coherent(table@),
            distinct_keys(table@),
            old(self).queries < u64::MAX,
        ensures
            final(self).wf(),
            final(self).coherent(table@),
            r@.len() == keys@.len(),
            forall|i: int| 0 <= i < keys@.len() ==> r@[i] == row_for(table@, keys@[i]),
            final(self).queries <= old(self).queries + 1,
            (forall|i: int| 0 <= i < keys@.len() ==> old(self).cached(#[trigger] keys@[i]))
                ==> final(self).queries == old(self).queries,
            forall|i: int|
                0 <= i < keys@.len() && has_key(table@, #[trigger] keys@[i])
                    ==> final(self).cached(keys@[i]),
    {
        let ghost orig = *old(self);
        let missing = self.missing_keys(keys);
        if missing.len() > 0 {
            let rows = select_by_idevent(table, &missing);
            proof {
                assert forall|i: int|
                    0 <= i < rows@.len() implies !self.cached(
                    (#[trigger] rows@[i]).spec_key(),
                ) by {
                    assert(missing@.contains(rows@[i].spec_key()));
                }
            }
            let ghost fetched = rows@;
            self.fill(rows);
            proof {
                assert(missing@.contains(missing@[0]));
                assert forall|i: int|
                    0 <= i < self.entries@.len() implies table@.contains(
                    #[trigger] self.entries@[i],
                ) by {
                    if i < orig.entries@.len() {
                        assert(self.entries@[i] == orig.entries@[i]);
                    } else {
                        assert(self.entries@[i] == fetched[i - orig.entries@.len()]);
                    }
                }
                assert forall|i: int|
                    0 <= i < keys@.len() && has_key(table@, #[trigger] keys@[i]) implies has_key(
                    self.entries@,
                    keys@[i],
                ) by {
                    let k = keys@[i];
                    if orig.cached(k) {
                        let a = choose|a: int|
                            0 <= a < orig.entries@.len() && (#[trigger] orig.entries@[
                                a]).spec_key() == k;
                        assert(self.entries@[a] == orig.entries@[a]);
                    } else {
                        assert(missing@.contains(k));
                        assert(has_key(fetched, k));
                        let a = choose|a: int|
                            0 <= a < fetched.len() && (#[trigger] fetched[a]).spec_key() == k;
                        assert(self.entries@[orig.entries@.len() + a] == fetched[a]);
                    }
                }
            }
        } else {
            proof {
                assert forall|i: int|
                    0 <= i < keys@.len() implies self.cached(#[trigger] keys@[i]) by {
                    if !self.cached(keys@[i]) {
                        assert(missing@.contains(keys@[i]));
                    }
                }
            }
        }
        let mut out: Vec<Option<V>> = Vec::new();
        let mut j: usize = 0;
        while j < keys.len()
            invariant
                0 <= j <= keys@.len(),
                out@.len() == j,
                self.wf(),
                self.coherent(table@),
                distinct_keys(table@),
                forall|i: int|
                    0 <= i < keys@.len() && has_key(table@, #[trigger] keys@[i]) ==> has_key(
                        self.entries@,
                        keys@[i],
                    ),
                forall|i: int| 0 <= i < j ==> out@[i] == row_for(table@, keys@[i]),
            decreases keys@.len() - j,
        {
            let k = keys[j];
            let hit = self.find(k);
            proof {
                assert(k == keys@[j as int]);
                match row_for(self.entries@, k) {
                    Some(v) => {
                        lemma_some_index(self.entries@, k, v);
                        assert(table@.contains(v)) by {
                            let a = choose|a: int|
                                0 <= a < self.entries@.len() && self.entries@[a] == v;
                        }
                        lemma_row_for_member(table@, v);
                    },
                    None => {
                        lemma_row_for_has_key(self.entries@, k);
                        assert(!has_key(table@, k));
                        lemma_row_for_absent(table@, k);
                    },
                }
            }
            out.push(hit);
            j += 1;
        }
        out
    }
}

/// A successful lookup returns a member of the table.
pub proof fn lemma_some_index<V: Row>(rows: Seq<V>, k: u64, v: V)
    requires
        row_for(rows, k) == Some(v),
    ensures
        rows.contains(v),
        v.spec_key() == k,
    decreases rows.len(),
{
    if rows.len() == 0 {
    } else if rows[0].spec_key() == k {
    } else {
        lemma_some_index(rows.drop_first(), k, v);
        let a = choose|a: int| 0 <= a < rows.drop_first().len() && rows.drop_first()[a] == v;
        assert(rows[a + 1] == v);
    }
}

} // verus!
