//! In-memory fact store: one stored row per `MemoryId`.
//!
//! Rows are upserted by the id read from their `id` column and deleted by
//! id. Suitable for unit tests and CI only, not for production use.
use std::collections::HashMap;
use std::sync::Arc;

use vstd::prelude::*;
use vstd::bytes::{
    lemma_auto_spec_u128_to_from_le_bytes, spec_u128_from_le_bytes, spec_u128_to_le_bytes,
    u128_from_le_bytes,
};

use crate::arrow::interop::{
    batch_column, batch_num_rows, batch_schema, batch_slice, binary_cell, binary_slot, binary_value,
    column_kind, column_len, column_slice, num_rows, slice_rows, Batch, ColumnKind,
};
use crate::arrow::convert::{batch_read_status, is_facts_batch_of, ReadStatus};
use crate::types::{Episode, MemoryId};

verus! {

broadcast use vstd::std_specs::hash::group_hash_axioms;

/// The id carried by the raw bytes of an `id` cell: their first 16 bytes,
/// or none when there are fewer.
pub open spec fn id_of_bytes(raw: Seq<u8>) -> Option<Seq<u8>> {
    if raw.len() < 16 {
        None
    } else {
        Some(raw.take(16))
    }
}

/// The key under which the row of a 16-byte id is stored.
pub open spec fn id_key(id: Seq<u8>) -> u128 {
    spec_u128_from_le_bytes(id)
}

/// The key of a row whose `id` cell holds `raw` (`None` when the row has
/// no binary `id` cell), if the row carries an id.
pub open spec fn row_key(raw: Option<Seq<u8>>) -> Option<u128> {
    match raw {
        Some(b) => match id_of_bytes(b) {
            Some(id) => Some(id_key(id)),
            None => None,
        },
        None => None,
    }
}

/// The stored rows after upserting `rows` in order: a row with an id
/// replaces whatever was stored under it, a row without one is skipped.
pub open spec fn upsert_rows<R>(m: Map<u128, R>, rows: Seq<(Option<Seq<u8>>, R)>) -> Map<u128, R>
    decreases rows.len(),
{
    if rows.len() == 0 {
        m
    } else {
        let prev = upsert_rows(m, rows.drop_last());
        match row_key(rows.last().0) {
            Some(k) => prev.insert(k, rows.last().1),
            None => prev,
        }
    }
}

/// The stored rows after deleting the ids `ids` in order.
pub open spec fn delete_ids<R>(m: Map<u128, R>, ids: Seq<MemoryId>) -> Map<u128, R>
    decreases ids.len(),
{
    if ids.len() == 0 {
        m
    } else {
        delete_ids(m, ids.drop_last()).remove(id_key(ids.last()@))
    }
}

/// Two 16-byte ids share a key only when they are equal: the store keeps
/// one row per distinct id.
pub proof fn lemma_id_key_injective(a: Seq<u8>, b: Seq<u8>)
    requires
        a.len() == 16,
        b.len() == 16,
        id_key(a) == id_key(b),
    ensures
        a == b,
{
    lemma_auto_spec_u128_to_from_le_bytes();
    assert(spec_u128_to_le_bytes(spec_u128_from_le_bytes(a)) == a);
    assert(spec_u128_to_le_bytes(spec_u128_from_le_bytes(b)) == b);
}

/// Upserting rows into stored rows `m` gives `m` overridden by the rows
/// the same upserts give on an empty store.
pub proof fn lemma_upsert_overrides<R>(m: Map<u128, R>, rows: Seq<(Option<Seq<u8>>, R)>)
    ensures
        upsert_rows(m, rows) == m.union_prefer_right(upsert_rows(Map::empty(), rows)),
    decreases rows.len(),
{
    if rows.len() == 0 {
        assert(m.union_prefer_right(Map::<u128, R>::empty()) =~= m);
    } else {
        lemma_upsert_overrides(m, rows.drop_last());
        let u = upsert_rows(Map::<u128, R>::empty(), rows.drop_last());
        match row_key(rows.last().0) {
            Some(k) => {
                assert(m.union_prefer_right(u).insert(k, rows.last().1) =~= m.union_prefer_right(
                    u.insert(k, rows.last().1),
                ));
            },
            None => {},
        }
    }
}

/// Upserts are idempotent: inserting the same rows again leaves the store
/// as it was, so re-inserting an id never adds a second row.
pub proof fn lemma_upsert_idempotent<R>(m: Map<u128, R>, rows: Seq<(Option<Seq<u8>>, R)>)
    ensures
        upsert_rows(upsert_rows(m, rows), rows) == upsert_rows(m, rows),
{
    let u = upsert_rows(Map::<u128, R>::empty(), rows);
    lemma_upsert_overrides(m, rows);
    lemma_upsert_overrides(upsert_rows(m, rows), rows);
    assert(m.union_prefer_right(u).union_prefer_right(u) =~= m.union_prefer_right(u));
}

/// After deleting `ids`, none of them is stored and every other stored row
/// is kept unchanged.
pub proof fn lemma_delete_removes<R>(m: Map<u128, R>, ids: Seq<MemoryId>)
    ensures
        forall|i: int| 0 <= i < ids.len() ==> !delete_ids(m, ids).contains_key(id_key(#[trigger] ids[i]@)),
        forall|k: u128|
            #![trigger delete_ids(m, ids).contains_key(k)]
            m.contains_key(k) && (forall|i: int| 0 <= i < ids.len() ==> id_key(#[trigger] ids[i]@) != k)
                ==> delete_ids(m, ids).contains_key(k) && delete_ids(m, ids)[k] == m[k],
        delete_ids(m, ids).dom().subset_of(m.dom()),
    decreases ids.len(),
{
    if ids.len() > 0 {
        let prev = ids.drop_last();
        lemma_delete_removes(m, prev);
        assert forall|i: int| 0 <= i < ids.len() implies !delete_ids(m, ids).contains_key(
            id_key(#[trigger] ids[i]@),
        ) by {
            if i < ids.len() - 1 {
                assert(ids[i] == prev[i]);
            }
        }
        assert forall|k: u128|
            #![trigger delete_ids(m, ids).contains_key(k)]
            m.contains_key(k) && (forall|i: int| 0 <= i < ids.len() ==> id_key(#[trigger] ids[i]@) != k)
                implies delete_ids(m, ids).contains_key(k) && delete_ids(m, ids)[k] == m[k] by {
            assert forall|i: int| 0 <= i < prev.len() implies id_key(#[trigger] prev[i]@) != k by {
                assert(prev[i] == ids[i]);
            }
            assert(id_key(ids[ids.len() - 1]@) != k);
        }
    }
}

/// `one` is row `i` of `b`: a one-row batch under the same schema and
/// columns.
pub open spec fn is_row_of(one: Batch, b: Batch, i: int) -> bool {
    &&& batch_num_rows(one) == 1
    &&& batch_schema(one) == batch_schema(b)
    &&& forall|name: Seq<char>|
        #[trigger] batch_column(one, name) == match batch_column(b, name) {
            Some(c) => Some(column_slice(c, i, 1)),
            None => None,
        }
}

/// What the store takes from a record batch, row by row: the bytes of the
/// row's `id` cell (none when the batch has no binary `id` column) and the
/// one-row batch of that row.
pub open spec fn batch_rows(b: Batch) -> Seq<(Option<Seq<u8>>, Batch)> {
    Seq::new(
        batch_num_rows(b),
        |i: int|
            (
                if batch_read_status(b, "id"@, ColumnKind::Binary) == ReadStatus::Present {
                    Some(binary_slot(b, "id"@, i))
                } else {
                    None
                },
                batch_slice(b, i as nat, 1),
            ),
    )
}

/// `row` is what the store takes from row `i` of `b`: the raw bytes of its
/// `id` cell (none when `b` has no binary `id` column; the cell's bytes when
/// it is not null) and the row itself.
pub open spec fn is_row_split(row: (Option<Seq<u8>>, Batch), b: Batch, i: int) -> bool {
    &&& (row.0 is Some <==> batch_read_status(b, "id"@, ColumnKind::Binary) == ReadStatus::Present)
    &&& (binary_cell(b, "id"@, i) matches Some(x) ==> row.0 == Some(x))
    &&& is_row_of(row.1, b, i)
}

/// A row as the store reads it: the bytes of its `id` cell, if any, and
/// the one-row batch.
pub open spec fn raw_view(row: (Option<Vec<u8>>, Batch)) -> (Option<Seq<u8>>, Batch) {
    (
        match row.0 {
            Some(v) => Some(v@),
            None => None,
        },
        row.1,
    )
}

/// `rows` is what the store takes from `b`, row by row.
pub open spec fn is_split_of(rows: Seq<(Option<Seq<u8>>, Batch)>, b: Batch) -> bool {
    &&& rows.len() == batch_num_rows(b)
    &&& forall|i: int| 0 <= i < rows.len() ==> is_row_split(#[trigger] rows[i], b, i)
}

/// Inserting a record batch twice stores what inserting it once does:
/// writes are idempotent.
pub proof fn lemma_insert_idempotent(m: Map<u128, Batch>, b: Batch)
    ensures
        upsert_rows(upsert_rows(m, batch_rows(b)), batch_rows(b)) == upsert_rows(m, batch_rows(b)),
{
    lemma_upsert_idempotent(m, batch_rows(b));
}

/// The ids stored after upserting `rows` are those stored before and those
/// the rows carry.
pub proof fn lemma_upsert_keys<R>(m: Map<u128, R>, rows: Seq<(Option<Seq<u8>>, R)>)
    ensures
        forall|k: u128|
            #[trigger] upsert_rows(m, rows).contains_key(k) <==> (m.contains_key(k) || exists|i: int|
                0 <= i < rows.len() && row_key(#[trigger] rows[i].0) == Some(k)),
    decreases rows.len(),
{
    if rows.len() > 0 {
        let prev = rows.drop_last();
        let last = rows.last();
        lemma_upsert_keys(m, prev);
        assert forall|k: u128|
            #[trigger] upsert_rows(m, rows).contains_key(k) <==> (m.contains_key(k) || exists|i: int|
                0 <= i < rows.len() && row_key(#[trigger] rows[i].0) == Some(k)) by {
            let in_prev = exists|i: int| 0 <= i < prev.len() && row_key(#[trigger] prev[i].0) == Some(k);
            let in_rows = exists|i: int| 0 <= i < rows.len() && row_key(#[trigger] rows[i].0) == Some(k);
            assert(rows[rows.len() - 1] == last);
            assert(upsert_rows(m, rows).contains_key(k) <==> (upsert_rows(m, prev).contains_key(k)
                || row_key(last.0) == Some(k)));
            assert(upsert_rows(m, prev).contains_key(k) <==> (m.contains_key(k) || in_prev));
            if in_prev {
                let i = choose|i: int| 0 <= i < prev.len() && row_key(#[trigger] prev[i].0) == Some(k);
                assert(rows[i] == prev[i]);
                assert(in_rows);
            }
            if row_key(last.0) == Some(k) {
                assert(in_rows);
            }
            if in_rows {
                let i = choose|i: int| 0 <= i < rows.len() && row_key(#[trigger] rows[i].0) == Some(k);
                if i < rows.len() - 1 {
                    assert(rows[i] == prev[i]);
                    assert(in_prev);
                }
            }
        }
    }
}

/// Inserting the record batch of a list of episodes stores exactly the
/// episodes' ids on top of what was stored: one row per distinct id.
pub proof fn lemma_insert_episodes_keys(
    m: Map<u128, Batch>,
    episodes: Seq<Episode>,
    dims: i32,
    b: Batch,
    rows: Seq<(Option<Seq<u8>>, Batch)>,
)
    requires
        is_facts_batch_of(b, episodes, dims),
        is_split_of(rows, b),
    ensures
        forall|k: u128|
            #[trigger] upsert_rows(m, rows).contains_key(k) <==> (m.contains_key(k) || exists|i: int|
                0 <= i < episodes.len() && id_key(#[trigger] episodes[i].id@) == k),
{
    lemma_upsert_keys(m, rows);
    assert forall|i: int| 0 <= i < rows.len() implies row_key(#[trigger] rows[i].0) == Some(
        id_key(episodes[i].id@),
    ) by {
        assert(is_row_split(rows[i], b, i));
        assert(binary_cell(b, "id"@, i) == Some(episodes[i].id@));
        assert(episodes[i].id@.take(16) =~= episodes[i].id@);
    }
    assert forall|k: u128|
        #[trigger] upsert_rows(m, rows).contains_key(k) <==> (m.contains_key(k) || exists|i: int|
            0 <= i < episodes.len() && id_key(#[trigger] episodes[i].id@) == k) by {
        if exists|i: int| 0 <= i < episodes.len() && id_key(#[trigger] episodes[i].id@) == k {
            let i = choose|i: int| 0 <= i < episodes.len() && id_key(#[trigger] episodes[i].id@) == k;
            assert(row_key(rows[i].0) == Some(k));
        }
        if exists|i: int| 0 <= i < rows.len() && row_key(#[trigger] rows[i].0) == Some(k) {
            let i = choose|i: int| 0 <= i < rows.len() && row_key(#[trigger] rows[i].0) == Some(k);
            assert(id_key(episodes[i].id@) == k);
        }
    }
}

/// Extract the 16-byte MemoryId from the raw bytes of an `id` cell.
pub fn extract_id(raw: &[u8]) -> (id: Option<MemoryId>)
    ensures
        match id_of_bytes(raw@) {
            Some(i) => id matches Some(m) && m@ == i,
            None => id is None,
        },
{
    if raw.len() < 16 {
        return None;
    }
    let mut id: MemoryId = [0u8; 16];
    for k in 0..16
        invariant
            raw@.len() >= 16,
            id@.len() == 16,
            forall|m: int| 0 <= m < k ==> id@[m] == raw@[m],
    {
        id[k] = raw[k];
    }
    assert(id@ =~= raw@.take(16));
    Some(id)
}

/// Id-keyed in-memory store of facts: one one-row record batch per stored
/// id, with the schema of the table it stands for.
pub struct InMemoryFactStore {
    /// One row per stored fact, keyed by its MemoryId.
    rows: HashMap<u128, Batch>,
    schema: Arc<arrow_schema::Schema>,
}

impl View for InMemoryFactStore {
    type V = Map<u128, Batch>;

    /// The stored rows, by the key of their id.
    closed spec fn view(&self) -> Map<u128, Batch> {
        self.rows@
    }
}

impl InMemoryFactStore {
    /// The schema the store was created with.
    pub closed spec fn schema_spec(&self) -> arrow_schema::Schema {
        *self.schema
    }

    pub fn new(schema: Arc<arrow_schema::Schema>) -> (s: Self)
        ensures
            s@ == Map::<u128, Batch>::empty(),
            s.schema_spec() == *schema,
    {
        InMemoryFactStore { rows: HashMap::new(), schema }
    }

    /// The schema of the stored rows.
    pub fn schema(&self) -> (s: &Arc<arrow_schema::Schema>)
        ensures
            **s == self.schema_spec(),
    {
        &self.schema
    }

    /// The number of stored rows: one per distinct id.
    pub fn len(&self) -> (n: usize)
        ensures
            n == self@.dom().len(),
    {
        self.rows.len()
    }

    pub fn is_empty(&self) -> (b: bool)
        ensures
            b <==> self@.dom().len() == 0,
    {
        self.rows.is_empty()
    }

    /// Insert a record batch of facts, one stored row per row of the batch,
    /// keyed by the id in its `id` column. Operations are upserts:
    /// re-inserting the same id overwrites; a row without an id is skipped.
    pub fn insert(&mut self, batch: Batch)
        ensures
            final(self)@ == upsert_rows(old(self)@, batch_rows(batch)),
            is_split_of(batch_rows(batch), batch),
            final(self).schema_spec() == old(self).schema_spec(),
    {
        let n = num_rows(&batch);
        let kind = column_kind(&batch, "id");
        let mut rows: Vec<(Option<Vec<u8>>, Batch)> = Vec::new();
        let ghost target = batch_rows(batch);
        for row in 0..n
            invariant
                n == batch_num_rows(batch),
                target == batch_rows(batch),
                kind == match batch_column(batch, "id"@) {
                    Some(c) => Some(crate::arrow::interop::column_kind_of(c)),
                    None => None,
                },
                batch_column(batch, "id"@) matches Some(c) ==> column_len(c) == n,
                rows@.len() == row,
                forall|i: int| 0 <= i < row ==> #[trigger] raw_view(rows@[i]) == target[i],
                forall|i: int| 0 <= i < row ==> is_row_split(#[trigger] target[i], batch, i),
        {
            let raw = if kind == Some(ColumnKind::Binary) {
                Some(binary_value(&batch, "id", row))
            } else {
                None
            };
            let one = slice_rows(&batch, row, 1);
            rows.push((raw, one));
            assert(raw_view(rows@[row as int]) == target[row as int]);
            assert(is_row_split(target[row as int], batch, row as int));
        }
        assert(rows@.map_values(|r: (Option<Vec<u8>>, Batch)| raw_view(r)) =~= target);
        self.upsert(rows);
    }

    /// Upserts rows, each given with the raw bytes of its `id` cell (`None`
    /// when the row has no binary `id` column).
    fn upsert(&mut self, rows: Vec<(Option<Vec<u8>>, Batch)>)
        ensures
            final(self)@ == upsert_rows(old(self)@, rows@.map_values(|r: (Option<Vec<u8>>, Batch)| raw_view(r))),
            final(self).schema_spec() == old(self).schema_spec(),
    {
        let ghost all = rows@.map_values(|r: (Option<Vec<u8>>, Batch)| raw_view(r));
        let ghost start = self.rows@;
        for row in it: rows.into_iter()
            invariant
                it.seq().map_values(|r: (Option<Vec<u8>>, Batch)| raw_view(r)) == all,
                self.rows@ == upsert_rows(start, all.take(it.index() as int)),
                self.schema == old(self).schema,
        {
            let ghost i = it.index() as int;
            assert(all.take(i + 1).drop_last() =~= all.take(i));
            assert(all.take(i + 1).last() == all[i]);
            assert(all[i] == raw_view(row));
            let (raw, r) = row;
            match raw {
                Some(bytes) => match extract_id(bytes.as_slice()) {
                    Some(id) => {
                        let key = u128_from_le_bytes(id.as_slice());
                        self.rows.insert(key, r);
                    },
                    None => {},
                },
                None => {},
            }
        }
        assert(all.take(all.len() as int) =~= all);
    }

    /// Batch-delete by id. Missing ids are silently ignored.
    pub fn delete(&mut self, ids: &[MemoryId])
        ensures
            final(self)@ == delete_ids(old(self)@, ids@),
            final(self).schema_spec() == old(self).schema_spec(),
    {
        for i in 0..ids.len()
            invariant
                self.rows@ == delete_ids(old(self)@, ids@.take(i as int)),
                self.schema == old(self).schema,
        {
            assert(ids@.take(i + 1).drop_last() =~= ids@.take(i as int));
            let key = u128_from_le_bytes(ids[i].as_slice());
            self.rows.remove(&key);
        }
        assert(ids@.take(ids@.len() as int) =~= ids@);
    }

    /// All stored rows, each once, in no particular order.
    pub fn rows(&self) -> (v: Vec<&Batch>)
        ensures
            exists|ks: Seq<u128>|
                {
                    &&& ks.len() == v@.len()
                    &&& ks.no_duplicates()
                    &&& ks.to_set() == self@.dom()
                    &&& forall|i: int| 0 <= i < ks.len() ==> *v@[i] == self@[#[trigger] ks[i]]
                },
    {
        let mut v: Vec<&Batch> = Vec::new();
        let ghost mut ks: Seq<u128> = Seq::empty();
        let ghost m = self.rows@;
        for kv in it: self.rows.iter()
            invariant
                m == self.rows@,
                it.seq().len() == m.dom().len(),
                it.seq().no_duplicates(),
                forall|i: int|
                    #![trigger it.seq()[i]]
                    0 <= i < it.seq().len() ==> m.contains_key(*it.seq()[i].0) && m[*it.seq()[i].0]
                        == *it.seq()[i].1,
                v@.len() == it.index(),
                ks.len() == it.index(),
                ks.no_duplicates(),
                forall|i: int|
                    #![trigger ks[i]]
                    0 <= i < ks.len() ==> ks[i] == *it.seq()[i].0 && *v@[i] == *it.seq()[i].1
                        && m.contains_key(ks[i]) && *v@[i] == m[ks[i]],
        {
            let (k, r) = kv;
            proof {
                let n = ks.len() as int;
                assert forall|i: int| 0 <= i < n implies ks[i] != *k by {
                    if ks[i] == *k {
                        assert(it.seq()[i] == it.seq()[n]);
                    }
                }
                ks = ks.push(*k);
            }
            v.push(r);
        }
        proof {
            ks.unique_seq_to_set();
            assert(ks.to_set().subset_of(m.dom()));
            vstd::set_lib::lemma_subset_equality(ks.to_set(), m.dom());
        }
        v
    }
}

} // verus!
