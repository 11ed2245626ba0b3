use vstd::prelude::*;

use crate::persistence::models::Row;

verus! {

/// No two rows of the table carry the same event id.
pub open spec fn distinct_keys<V: Row>(rows: Seq<V>) -> bool {
    forall|i: int, j: int|
        0 <= i < j < rows.len() ==> (#[trigger] rows[i]).spec_key() != (#[trigger] rows[j]).spec_key()
}

/// Some row of the table carries the event id `k`.
pub open spec fn has_key<V: Row>(rows: Seq<V>, k: u64) -> bool {
    exists|i: int| 0 <= i < rows.len() && (#[trigger] rows[i]).spec_key() == k
}

/// The first row keyed by `k`, or `None` when the table holds none.
pub open spec fn row_for<V: Row>(rows: Seq<V>, k: u64) -> Option<V>
    decreases rows.len(),
{
    if rows.len() == 0 {
        None
    } else if rows[0].spec_key() == k {
        Some(rows[0])
    } else {
        row_for(rows.drop_first(), k)
    }
}

/// A lookup succeeds exactly when the table holds the key.
pub proof fn lemma_row_for_has_key<V: Row>(rows: Seq<V>, k: u64)
    ensures
        (row_for(rows, k) is Some) <==> has_key(rows, k),
    decreases rows.len(),
{
    if rows.len() == 0 {
    } else if rows[0].spec_key() == k {
    } else {
        lemma_row_for_has_key(rows.drop_first(), k);
        if has_key(rows, k) {
            let i = choose|i: int| 0 <= i < rows.len() && (#[trigger] rows[i]).spec_key() == k;
            assert(rows.drop_first()[i - 1] == rows[i]);
            assert(has_key(rows.drop_first(), k));
        }
        if has_key(rows.drop_first(), k) {
            let i = choose|i: int|
                0 <= i < rows.drop_first().len() && (#[trigger] rows.drop_first()[i]).spec_key()
                    == k;
            assert(rows[i + 1] == rows.drop_first()[i]);
        }
    }
}

/// In a table with distinct keys, every member row is the one its key finds.
pub proof fn lemma_row_for_member<V: Row>(rows: Seq<V>, v: V)
    requires
        distinct_keys(rows),
        rows.contains(v),
    ensures
        row_for(rows, v.spec_key()) == Some(v),
    decreases rows.len(),
{
    let i = choose|i: int| 0 <= i < rows.len() && rows[i] == v;
    if i == 0 {
    } else {
        assert(rows[0].spec_key() != rows[i].spec_key());
        let rest = rows.drop_first();
        assert(rest[i - 1] == v);
        assert(rest.contains(v));
        assert forall|a: int, b: int| 0 <= a < b < rest.len() implies (#[trigger] rest[a]).spec_key()
            != (#[trigger] rest[b]).spec_key() by {
            assert(rest[a] == rows[a + 1]);
            assert(rest[b] == rows[b + 1]);
        }
        lemma_row_for_member(rest, v);
    }
}

/// A lookup of an absent key yields `None`.
pub proof fn lemma_row_for_absent<V: Row>(rows: Seq<V>, k: u64)
    requires
        !has_key(rows, k),
    ensures
        row_for(rows, k) is None,
{
    lemma_row_for_has_key(rows, k);
}

/// Appending a row with a fresh key keeps keys distinct.
pub proof fn lemma_distinct_push<V: Row>(rows: Seq<V>, v: V)
    requires
        distinct_keys(rows),
        !has_key(rows, v.spec_key()),
    ensures
        distinct_keys(rows.push(v)),
{
    let ext = rows.push(v);
    assert forall|i: int, j: int| 0 <= i < j < ext.len() implies (#[trigger] ext[i]).spec_key()
        != (#[trigger] ext[j]).spec_key() by {
        if j < rows.len() {
            assert(ext[i] == rows[i]);
            assert(ext[j] == rows[j]);
        } else {
            assert(ext[j] == v);
            assert(ext[i] == rows[i]);
            assert(!(rows[i].spec_key() == v.spec_key())) by {
                if rows[i].spec_key() == v.spec_key() {
                    assert(has_key(rows, v.spec_key()));
                }
            }
        }
    }
}

/// Appending a row keeps every key that was already present.
pub proof fn lemma_has_key_push<V: Row>(rows: Seq<V>, v: V, k: u64)
    requires
        has_key(rows, k),
    ensures
        has_key(rows.push(v), k),
{
    let i = choose|i: int| 0 <= i < rows.len() && (#[trigger] rows[i]).spec_key() == k;
    assert(rows.push(v)[i] == rows[i]);
}

/// Looking up the key of a freshly appended row finds that row; every other
/// key reads as before.
pub proof fn lemma_row_for_push<V: Row>(rows: Seq<V>, v: V, k: u64)
    ensures
        !has_key(rows, v.spec_key()) && k == v.spec_key() ==> row_for(rows.push(v), k) == Some(v),
        k != v.spec_key() ==> row_for(rows.push(v), k) == row_for(rows, k),
    decreases rows.len(),
{
    let ext = rows.push(v);
    if rows.len() == 0 {
        assert(ext.len() == 1);
        assert(ext[0] == v);
        if k != v.spec_key() {
            assert(ext.drop_first() =~= Seq::<V>::empty());
        }
    } else {
        assert(ext[0] == rows[0]);
        if rows[0].spec_key() == k {
        } else {
            assert(ext.drop_first() =~= rows.drop_first().push(v));
            if !has_key(rows, v.spec_key()) && k == v.spec_key() {
                assert(!has_key(rows.drop_first(), v.spec_key())) by {
                    if has_key(rows.drop_first(), v.spec_key()) {
                        let rest = rows.drop_first();
                        let i = choose|i: int|
                            0 <= i < rest.len() && (#[trigger] rest[i]).spec_key()
                                == v.spec_key();
                        assert(rows[i + 1] == rows.drop_first()[i]);
                        assert(has_key(rows, v.spec_key()));
                    }
                };
            }
            lemma_row_for_push(rows.drop_first(), v, k);
        }
    }
}

/// Whether the vector holds the id `x`.
pub fn contains_u64(v: &Vec<u64>, x: u64) -> (r: bool)
    ensures
        r == v@.contains(x),
{
    let mut i: usize = 0;
    while i < v.len()
        invariant
            0 <= i <= v@.len(),
            forall|j: int| 0 <= j < i ==> v@[j] != x,
        decreases v@.len() - i,
    {
        if v[i] == x {
            return true;
        }
        i += 1;
    }
    false
}

/// One batched lookup: the rows of `table` whose key stands in `wanted`,
/// mirroring a single `select where idevent in (wanted)` query.
pub fn select_by_idevent<V: Row>(table: &Vec<V>, wanted: &Vec<u64>) -> (r: Vec<V>)
    requires
        distinct_keys(table@),
    ensures
        distinct_keys(r@),
        forall|i: int|
            0 <= i < r@.len() ==> table@.contains(#[trigger] r@[i]) && wanted@.contains(
                r@[i].spec_key(),
            ),
        forall|k: u64| wanted@.contains(k) && has_key(table@, k) ==> has_key(r@, k),
{
    let mut r: Vec<V> = Vec::new();
    let mut i: usize = 0;
    while i < table.len()
        invariant
            0 <= i <= table@.len(),
            distinct_keys(table@),
            distinct_keys(r@),
            forall|j: int|
                0 <= j < r@.len() ==> table@.contains(#[trigger] r@[j]) && wanted@.contains(
                    r@[j].spec_key(),
                ),
            forall|k: u64| has_key(r@, k) ==> has_key(table@.take(i as int), k),
            forall|k: u64|
                wanted@.contains(k) && has_key(table@.take(i as int), k) ==> has_key(r@, k),
        decreases table@.len() - i,
    {
        let ghost prev = r@;
        let ghost t1 = table@.take(i as int);
        let ghost row = table@[i as int];
        let k = table[i].key();
        if contains_u64(wanted, k) {
            proof {
                assert(!has_key(prev, k)) by {
                    if has_key(prev, k) {
                        let a = choose|a: int|
                            0 <= a < t1.len() && (#[trigger] t1[a]).spec_key() == k;
                        assert(t1[a] == table@[a]);
                    }
                };
                lemma_distinct_push(prev, row);
            }
            r.push(table[i].clone_row());
        }
        proof {
            let t2 = table@.take(i as int + 1);
            assert(t2 =~= t1.push(row));
            assert forall|k2: u64| wanted@.contains(k2) && has_key(t2, k2) implies has_key(
                r@,
                k2,
            ) by {
                let a = choose|a: int| 0 <= a < t2.len() && (#[trigger] t2[a]).spec_key() == k2;
                if a < t1.len() {
                    assert(t1[a] == t2[a]);
                    assert(has_key(t1, k2));
                    let b = choose|b: int|
                        0 <= b < prev.len() && (#[trigger] prev[b]).spec_key() == k2;
                    assert(r@[b] == prev[b]);
                } else {
                    assert(t2[a] == row);
                    assert(r@[r@.len() - 1] == row);
                }
            }
            assert forall|k2: u64| has_key(r@, k2) implies has_key(t2, k2) by {
                let a = choose|a: int| 0 <= a < r@.len() && (#[trigger] r@[a]).spec_key() == k2;
                if a < prev.len() {
                    assert(r@[a] == prev[a]);
                    assert(has_key(prev, k2));
                    let b = choose|b: int|
                        0 <= b < t1.len() && (#[trigger] t1[b]).spec_key() == k2;
                    assert(t2[b] == t1[b]);
                } else {
                    assert(r@[a] == row);
                    assert(t2[t2.len() - 1] == row);
                }
            }
        }
        i += 1;
    }
    proof {
        assert(table@.take(table@.len() as int) =~= table@);
    }
    r
}

} // verus!
