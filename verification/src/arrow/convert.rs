//! Conversions between domain types and the columns of `facts.lance`.
//!
//! This module owns the single canonical mapping between the two: which
//! value of an episode lands in which column, and what a retrieved row
//! gives back.
use vstd::prelude::*;
use vstd::string::*;
use vstd::utf8::{encode_utf8, is_ascii_chars, is_ascii_chars_encode_utf8};

use crate::arrow::{facts_fields, facts_schema_with_dims, lemma_facts_field_names_distinct};
use crate::arrow::interop::{
    batch_column, batch_num_rows, batch_try_new, chunked_rows, column_has_nulls, column_len,
    column_set, column_type, columns_fit, float_list_nulls, float_list_rows, float_list_size,
    float_list_try_new, float_list_values, is_float32_list, empty_rows, list_rows, new_column_set, push_binary_ids,
    push_float_list, push_int64, push_null_float32, push_null_int64, push_null_utf8,
    push_opt_uint64, push_utf8, push_utf8_lists, schema_fields, total_len, utf8_bytes, Batch,
    batch_schema,
    binary_cell, binary_slot, binary_value, column_kind, column_kind_of, int64_cell, int64_slot,
    int64_value, num_rows, utf8_cell, utf8_slot, utf8_value, ColumnContent, ColumnKind, ColumnType,
};
use crate::error::{decimal, usize_to_decimal, MembridError};
use crate::types::{
    preview_of, role_name, ttl_expiry, Episode, MemoryId, MemoryMetadata, MemoryTier,
    RetrievedMemory,
};

verus! {

// ---------------------------------------------------------------------------
// Episode -> columns
// ---------------------------------------------------------------------------

/// The columns of `facts.lance` for a batch of episodes, one entry per
/// episode and in the episodes' order. The SPO columns (`subject_id`,
/// `predicate`, `object_id`, `object_value`, `confidence`, `valid_from`,
/// `valid_until`) are null for every episode and are not held here.
pub struct EpisodeColumns {
    pub ids: Vec<MemoryId>,
    /// The `vector` column: each episode's embedding, null where it has none.
    pub vector: arrow_array::FixedSizeListArray,
    /// The `fact_kind` column: "episode" for every row.
    pub fact_kinds: Vec<String>,
    pub session_ids: Vec<String>,
    pub roles: Vec<String>,
    pub contents: Vec<String>,
    pub previews: Vec<String>,
    pub timestamps_ms: Vec<i64>,
    pub topic_tags: Vec<Vec<String>>,
    pub entity_ids: Vec<Vec<String>>,
    /// The `ttl_expires_ms` column: each episode's expiry instant, null
    /// where it has no TTL.
    pub ttl_expires: Vec<Option<u64>>,
}

/// The texts of a list of strings.
pub open spec fn texts(v: Vec<String>) -> Seq<Seq<char>> {
    v@.map_values(|s: String| s@)
}

/// The `vector` row of an episode: its embedding's bit patterns, or null.
pub open spec fn vector_row(e: Episode) -> Option<Seq<u32>> {
    match e.embedding {
        Some(v) => Some(v@),
        None => None,
    }
}

/// The `dims` values that an episode contributes to the `vector` column:
/// its embedding, or zeros under a null row.
pub open spec fn vector_chunk(e: Episode, dims: nat) -> Seq<u32> {
    match e.embedding {
        Some(v) => v@,
        None => Seq::new(dims, |k: int| 0u32),
    }
}

/// The expiry instant of an episode fits in 64 bits (or it has no TTL).
pub open spec fn ttl_fits(e: Episode) -> bool {
    ttl_expiry(e.timestamp_ms, e.ttl_secs) matches Some(t) ==> t <= u64::MAX
}

/// The `ttl_expires_ms` cell of an episode: its expiry instant, or null.
pub open spec fn ttl_cell(e: Episode) -> Option<u64> {
    match ttl_expiry(e.timestamp_ms, e.ttl_secs) {
        Some(t) => Some(t as u64),
        None => None,
    }
}

/// Every episode has an embedding.
pub open spec fn all_embedded(episodes: Seq<Episode>) -> bool {
    forall|i: int| #![trigger episodes[i]] 0 <= i < episodes.len() ==> episodes[i].embedding is Some
}

/// The `vector` column of `episodes` can be built with one row per episode
/// for embeddings of `dims` floats: `dims` is positive, or it is 0 and some
/// episode has no embedding (the null bitmap then gives the rows), or there
/// are no episodes.
pub open spec fn vector_rows_fit(episodes: Seq<Episode>, dims: i32) -> bool {
    dims > 0 || (dims == 0 && (episodes.len() == 0 || !all_embedded(episodes)))
}

/// The embedding of an episode has a length other than `dims`.
pub open spec fn has_wrong_dims(e: Episode, dims: i32) -> bool {
    e.embedding matches Some(v) && v@.len() != dims
}

/// The index of the first episode at or after `from` whose embedding has a
/// length other than `dims`, if any.
pub open spec fn first_wrong_dims(episodes: Seq<Episode>, dims: i32, from: int) -> Option<int>
    decreases episodes.len() - from,
{
    if from < 0 || from >= episodes.len() {
        None
    } else if has_wrong_dims(episodes[from], dims) {
        Some(from)
    } else {
        first_wrong_dims(episodes, dims, from + 1)
    }
}

proof fn lemma_first_wrong_dims(episodes: Seq<Episode>, dims: i32, from: int)
    ensures
        first_wrong_dims(episodes, dims, from) matches Some(k) ==> from <= k < episodes.len()
            && has_wrong_dims(episodes[k], dims),
        from >= episodes.len() ==> first_wrong_dims(episodes, dims, from) is None,
    decreases episodes.len() - from,
{
    if 0 <= from < episodes.len() && !has_wrong_dims(episodes[from], dims) {
        lemma_first_wrong_dims(episodes, dims, from + 1);
    }
}

/// The message of the error for an embedding of `got` floats where `dims`
/// were expected.
pub open spec fn wrong_dims_message(got: nat, dims: nat) -> Seq<char> {
    "episode embedding has "@ + decimal(got) + " dims, expected "@ + decimal(dims)
}

/// `cols` holds, row by row, the column values of `episodes` for
/// embeddings of `dims` floats.
pub open spec fn columns_of(cols: EpisodeColumns, episodes: Seq<Episode>, dims: i32) -> bool {
    let n = episodes.len();
    &&& cols.ids@.len() == n
    &&& cols.fact_kinds@.len() == n
    &&& cols.session_ids@.len() == n
    &&& cols.roles@.len() == n
    &&& cols.contents@.len() == n
    &&& cols.previews@.len() == n
    &&& cols.timestamps_ms@.len() == n
    &&& cols.topic_tags@.len() == n
    &&& cols.entity_ids@.len() == n
    &&& cols.ttl_expires@.len() == n
    &&& is_float32_list(cols.vector)
    &&& float_list_size(cols.vector) == dims
    &&& dims > 0 ==> float_list_rows(cols.vector) == episodes.map_values(|e: Episode| vector_row(e))
    &&& dims == 0 ==> float_list_rows(cols.vector) == if all_embedded(episodes) {
        Seq::empty()
    } else {
        episodes.map_values(|e: Episode| vector_row(e))
    }
    &&& float_list_values(cols.vector).len() == n * dims
    &&& forall|i: int|
        #![trigger episodes[i]]
        0 <= i < n ==> float_list_values(cols.vector).subrange(i * dims, i * dims + dims)
            == vector_chunk(episodes[i], dims as nat)
    &&& (float_list_nulls(cols.vector) is None <==> all_embedded(episodes))
    &&& float_list_nulls(cols.vector) matches Some(v) ==> v == episodes.map_values(
        |e: Episode| e.embedding is Some,
    )
    &&& forall|i: int|
        #![trigger episodes[i]]
        0 <= i < n ==> {
            let e = episodes[i];
            &&& cols.ids@[i] == e.id
            &&& cols.fact_kinds@[i]@ == "episode"@
            &&& cols.session_ids@[i]@ == e.session_id@
            &&& cols.roles@[i]@ == role_name(e.role)
            &&& cols.contents@[i]@ == e.content@
            &&& cols.previews@[i]@ == preview_of(e.content@)
            &&& cols.timestamps_ms@[i] == e.timestamp_ms as i64
            &&& texts(cols.topic_tags@[i]) == texts(e.metadata.topic_tags)
            &&& texts(cols.entity_ids@[i]) == texts(e.metadata.entity_ids)
            &&& cols.ttl_expires@[i] == ttl_cell(e)
        }
}

/// A copy of a list of strings.
fn copy_strings(v: &Vec<String>) -> (c: Vec<String>)
    ensures
        texts(c) == texts(*v),
{
    let mut c: Vec<String> = Vec::new();
    for i in 0..v.len()
        invariant
            c@.len() == i,
            forall|j: int| 0 <= j < i ==> #[trigger] c@[j]@ == v@[j]@,
    {
        c.push(v[i].clone());
    }
    assert(texts(c) =~= texts(*v));
    c
}

proof fn lemma_chunk_bounds(j: int, i: int, dims: int)
    requires
        0 <= j < i,
        0 <= dims,
    ensures
        j * dims + dims <= i * dims,
        0 <= j * dims,
{
    assert(j * dims + dims <= i * dims) by (nonlinear_arith)
        requires
            0 <= j < i,
            0 <= dims,
    ;
    assert(0 <= j * dims) by (nonlinear_arith)
        requires
            0 <= j,
            0 <= dims,
    ;
}

proof fn lemma_div_exact(n: int, dims: int)
    requires
        0 <= n,
        0 < dims,
    ensures
        (n * dims) / dims == n,
        (n * dims) % dims == 0,
{
    assert((n * dims) / dims == n && (n * dims) % dims == 0) by (nonlinear_arith)
        requires
            0 <= n,
            0 < dims,
    ;
}

/// The bit patterns of the `vector` column, `dims` per episode (zeros for
/// an episode with no embedding), with the row validity; or the index of
/// the first episode whose embedding has another length.
fn flatten_vectors(episodes: &[Episode], dims: usize) -> (r: Result<(Vec<u32>, Vec<bool>), usize>)
    requires
        episodes@.len() * dims <= usize::MAX,
    ensures
        match r {
            Err(k) => k < episodes@.len() && (dims <= i32::MAX ==> first_wrong_dims(
                episodes@,
                dims as i32,
                0,
            ) == Some(k as int)),
            Ok((flat, valid)) => {
                &&& dims <= i32::MAX ==> first_wrong_dims(episodes@, dims as i32, 0) is None
                &&& flat@.len() == episodes@.len() * dims
                &&& valid@.len() == episodes@.len()
                &&& forall|j: int|
                    #![trigger episodes@[j]]
                    0 <= j < episodes@.len() ==> {
                        &&& valid@[j] == (episodes@[j].embedding is Some)
                        &&& flat@.subrange(j * dims, j * dims + dims) == vector_chunk(
                            episodes@[j],
                            dims as nat,
                        )
                    }
            },
        },
{
    let n = episodes.len();
    let mut flat: Vec<u32> = Vec::new();
    let mut valid: Vec<bool> = Vec::new();
    assert(0 * dims == 0) by (nonlinear_arith);
    for i in 0..n
        invariant
            n == episodes@.len(),
            n * dims <= usize::MAX,
            flat@.len() == i * dims,
            valid@.len() == i,
            dims <= i32::MAX ==> first_wrong_dims(episodes@, dims as i32, 0) == first_wrong_dims(
                episodes@,
                dims as i32,
                i as int,
            ),
            forall|j: int|
                #![trigger episodes@[j]]
                0 <= j < i ==> {
                    &&& valid@[j] == (episodes@[j].embedding is Some)
                    &&& flat@.subrange(j * dims, j * dims + dims) == vector_chunk(
                        episodes@[j],
                        dims as nat,
                    )
                },
    {
        proof {
            assert(i * dims + dims <= n * dims) by (nonlinear_arith)
                requires
                    i < n,
            ;
        }
        let ghost before = flat@;
        match &episodes[i].embedding {
            Some(v) => {
                if v.len() != dims {
                    return Err(i);
                }
                for k in 0..dims
                    invariant
                        v@.len() == dims,
                        flat@.len() == i * dims + k,
                        flat@.subrange(0, i * dims) == before,
                        forall|m: int| 0 <= m < k ==> flat@[i * dims + m] == v@[m],
                {
                    flat.push(v[k]);
                    assert(flat@.subrange(0, i * dims) =~= before);
                }
                assert(flat@.subrange(i * dims, i * dims + dims) =~= v@);
                valid.push(true);
            },
            None => {
                for k in 0..dims
                    invariant
                        flat@.len() == i * dims + k,
                        flat@.subrange(0, i * dims) == before,
                        forall|m: int| i * dims <= m < i * dims + k ==> flat@[m] == 0u32,
                {
                    flat.push(0u32);
                    assert(flat@.subrange(0, i * dims) =~= before);
                }
                assert(flat@.subrange(i * dims, i * dims + dims) =~= vector_chunk(
                    episodes@[i as int],
                    dims as nat,
                ));
                valid.push(false);
            },
        }
        proof {
            assert(flat@.len() == (i + 1) * dims) by (nonlinear_arith)
                requires
                    flat@.len() == i * dims + dims,
            ;
            assert forall|j: int|
                #![trigger episodes@[j]]
                0 <= j < i + 1 implies {
                &&& valid@[j] == (episodes@[j].embedding is Some)
                &&& flat@.subrange(j * dims, j * dims + dims) == vector_chunk(
                    episodes@[j],
                    dims as nat,
                )
            } by {
                if j < i {
                    lemma_chunk_bounds(j, i as int, dims as int);
                    assert(flat@.subrange(j * dims, j * dims + dims) =~= before.subrange(
                        j * dims,
                        j * dims + dims,
                    ));
                }
            }
        }
    }
    proof {
        assert(flat@.len() == n * dims) by (nonlinear_arith)
            requires
                flat@.len() == n * dims,
        ;
    }
    Ok((flat, valid))
}

/// Converts a slice of episodes into the columns of `facts.lance`.
///
/// `embedding_dims` must match the schema used for the target table.
/// Episodes with `embedding = None` get a null vector entry; an episode
/// whose embedding has another length makes the whole conversion fail.
pub fn episode_columns(episodes: &[Episode], embedding_dims: i32) -> (r: Result<EpisodeColumns, MembridError>)
    requires
        embedding_dims >= 0 || episodes@.len() == 0,
        episodes@.len() * embedding_dims <= usize::MAX,
        forall|i: int| 0 <= i < episodes@.len() ==> ttl_fits(#[trigger] episodes@[i]),
    ensures
        match first_wrong_dims(episodes@, embedding_dims, 0) {
            Some(k) => r matches Err(MembridError::Other(m)) && m@ == wrong_dims_message(
                episodes@[k].embedding->0@.len(),
                embedding_dims as nat,
            ),
            None => {
                &&& r matches Ok(cols) ==> columns_of(cols, episodes@, embedding_dims)
                &&& r is Err ==> (r matches Err(MembridError::Arrow(_)))
                &&& r is Ok <==> embedding_dims >= 0
            },
        },
{
    let n = episodes.len();
    let dims: usize = if n == 0 {
        0
    } else {
        embedding_dims as usize
    };
    assert(n > 0 ==> dims == embedding_dims);
    let (flat, valid) = match flatten_vectors(episodes, dims) {
        Ok(fv) => fv,
        Err(k) => {
            proof {
                lemma_first_wrong_dims(episodes@, embedding_dims, 0);
            }
            let got = match &episodes[k].embedding {
                Some(v) => v.len(),
                None => 0,
            };
            let mut msg = String::from_str("episode embedding has ");
            msg.append(usize_to_decimal(got).as_str());
            msg.append(" dims, expected ");
            msg.append(usize_to_decimal(dims).as_str());
            return Err(MembridError::Other(msg));
        },
    };
    let mut all_valid = true;
    for i in 0..n
        invariant
            n == valid@.len(),
            all_valid <==> forall|j: int| 0 <= j < i ==> valid@[j],
    {
        all_valid = all_valid && valid[i];
    }
    let validity = if all_valid {
        None
    } else {
        Some(valid)
    };
    let ghost validity_view = match &validity {
        Some(v) => Some(v@),
        None => None,
    };
    let ghost flat_view = flat@;
    let ghost valid_view = valid@;
    proof {
        lemma_first_wrong_dims(episodes@, embedding_dims, 0);
        if embedding_dims > 0 {
            lemma_div_exact(n as int, embedding_dims as int);
        }
    }
    let vector = match float_list_try_new(embedding_dims, flat, validity) {
        Ok(v) => v,
        Err(e) => {
            return Err(MembridError::Arrow(e));
        },
    };
    let mut cols = EpisodeColumns {
        ids: Vec::new(),
        vector,
        fact_kinds: Vec::new(),
        session_ids: Vec::new(),
        roles: Vec::new(),
        contents: Vec::new(),
        previews: Vec::new(),
        timestamps_ms: Vec::new(),
        topic_tags: Vec::new(),
        entity_ids: Vec::new(),
        ttl_expires: Vec::new(),
    };
    for i in 0..n
        invariant
            n == episodes@.len(),
            cols.vector == vector,
            cols.ids@.len() == i,
            cols.fact_kinds@.len() == i,
            cols.session_ids@.len() == i,
            cols.roles@.len() == i,
            cols.contents@.len() == i,
            cols.previews@.len() == i,
            cols.timestamps_ms@.len() == i,
            cols.topic_tags@.len() == i,
            cols.entity_ids@.len() == i,
            cols.ttl_expires@.len() == i,
            forall|j: int| 0 <= j < n ==> ttl_fits(#[trigger] episodes@[j]),
            forall|j: int|
                #![trigger episodes@[j]]
                0 <= j < i ==> {
                    let e = episodes@[j];
                    &&& cols.ids@[j] == e.id
                    &&& cols.fact_kinds@[j]@ == "episode"@
                    &&& cols.session_ids@[j]@ == e.session_id@
                    &&& cols.roles@[j]@ == role_name(e.role)
                    &&& cols.contents@[j]@ == e.content@
                    &&& cols.previews@[j]@ == preview_of(e.content@)
                    &&& cols.timestamps_ms@[j] == e.timestamp_ms as i64
                    &&& texts(cols.topic_tags@[j]) == texts(e.metadata.topic_tags)
                    &&& texts(cols.entity_ids@[j]) == texts(e.metadata.entity_ids)
                    &&& cols.ttl_expires@[j] == ttl_cell(e)
                },
    {
        let e = &episodes[i];
        cols.ids.push(e.id);
        cols.fact_kinds.push(String::from_str("episode"));
        cols.session_ids.push(e.session_id.clone());
        cols.roles.push(String::from_str(e.role.as_str()));
        cols.contents.push(e.content.clone());
        cols.previews.push(String::from_str(e.preview()));
        let ts: i64 = #[verifier::truncate] (e.timestamp_ms as i64);
        cols.timestamps_ms.push(ts);
        cols.topic_tags.push(copy_strings(&e.metadata.topic_tags));
        cols.entity_ids.push(copy_strings(&e.metadata.entity_ids));
        proof {
            assert(ttl_fits(episodes@[i as int]));
        }
        cols.ttl_expires.push(e.ttl_expires_ms());
    }
    proof {
        if embedding_dims > 0 {
            lemma_div_exact(n as int, embedding_dims as int);
            let rows = chunked_rows(flat_view, embedding_dims as nat, validity_view);
            assert forall|j: int| 0 <= j < n implies #[trigger] rows[j] == vector_row(episodes@[j]) by {
                if episodes@[j].embedding is None {
                    assert(!valid@[j]);
                }
            }
            assert(rows =~= episodes@.map_values(|e: Episode| vector_row(e)));
        }
        assert(n > 0 ==> dims == embedding_dims);
        assert(float_list_values(vector) == flat_view);
        assert(flat_view.len() == n * embedding_dims) by (nonlinear_arith)
            requires
                flat_view.len() == n * dims,
                n > 0 ==> dims == embedding_dims,
        ;
        assert forall|i: int|
            #![trigger episodes@[i]]
            0 <= i < n implies float_list_values(vector).subrange(
            i * embedding_dims,
            i * embedding_dims + embedding_dims,
        ) == vector_chunk(episodes@[i], embedding_dims as nat) by {
            assert(dims == embedding_dims);
        }
        assert(all_valid <==> forall|i: int|
            #![trigger episodes@[i]]
            0 <= i < n ==> episodes@[i].embedding is Some) by {
            if all_valid {
                assert forall|i: int|
                    #![trigger episodes@[i]]
                    0 <= i < n implies episodes@[i].embedding is Some by {
                    assert(valid_view[i]);
                }
            } else {
                let j = choose|j: int| 0 <= j < n && !valid_view[j];
                assert(episodes@[j].embedding is None);
            }
        }
        assert(valid_view =~= episodes@.map_values(|e: Episode| e.embedding is Some));
        if embedding_dims == 0 {
            if !all_valid {
                let rows = empty_rows(validity_view);
                assert forall|j: int| 0 <= j < n implies #[trigger] rows[j] == vector_row(episodes@[j]) by {
                    if episodes@[j].embedding is Some {
                        assert(!has_wrong_dims(episodes@[j], embedding_dims));
                        assert(episodes@[j].embedding->0@ =~= Seq::<u32>::empty());
                    }
                }
                assert(rows =~= episodes@.map_values(|e: Episode| vector_row(e)));
            }
        }
    }
    Ok(cols)
}

// ---------------------------------------------------------------------------
// Episode -> record batch
// ---------------------------------------------------------------------------

/// The number of strings in a list of string lists.
pub open spec fn lists_total(lists: Seq<Seq<Seq<char>>>) -> int
    decreases lists.len(),
{
    if lists.len() == 0 {
        0
    } else {
        lists_total(lists.drop_last()) + lists.last().len()
    }
}

/// The number of topic tags over all of `episodes`.
pub open spec fn topic_tag_total(episodes: Seq<Episode>) -> int {
    lists_total(episodes.map_values(|e: Episode| texts(e.metadata.topic_tags)))
}

/// The number of entity ids over all of `episodes`.
pub open spec fn entity_id_total(episodes: Seq<Episode>) -> int {
    lists_total(episodes.map_values(|e: Episode| texts(e.metadata.entity_ids)))
}

/// The strings of every list of `lists`, one list after another.
pub open spec fn flatten_texts(lists: Seq<Seq<Seq<char>>>) -> Seq<Seq<char>>
    decreases lists.len(),
{
    if lists.len() == 0 {
        Seq::empty()
    } else {
        flatten_texts(lists.drop_last()) + lists.last()
    }
}

/// The string columns of the record batch of `episodes` fit Arrow's 32-bit
/// offsets: the bytes of each column (16 per id, 7 per "episode" kind), and
/// the number of strings of each list column, are at most `i32::MAX`.
pub open spec fn offsets_fit(episodes: Seq<Episode>) -> bool {
    &&& episodes.len() * 16 <= i32::MAX
    &&& episodes.len() * 7 <= i32::MAX
    &&& utf8_bytes(episodes.map_values(|e: Episode| e.session_id@)) <= i32::MAX
    &&& utf8_bytes(episodes.map_values(|e: Episode| role_name(e.role))) <= i32::MAX
    &&& utf8_bytes(episodes.map_values(|e: Episode| e.content@)) <= i32::MAX
    &&& utf8_bytes(episodes.map_values(|e: Episode| preview_of(e.content@))) <= i32::MAX
    &&& topic_tag_total(episodes) <= i32::MAX
    &&& entity_id_total(episodes) <= i32::MAX
    &&& utf8_bytes(flatten_texts(episodes.map_values(|e: Episode| texts(e.metadata.topic_tags))))
        <= i32::MAX
    &&& utf8_bytes(flatten_texts(episodes.map_values(|e: Episode| texts(e.metadata.entity_ids))))
        <= i32::MAX
}

/// A column of copies of one text has that text's bytes once per row.
proof fn lemma_utf8_bytes_repeated(s: Seq<Seq<char>>, t: Seq<char>)
    requires
        forall|i: int| 0 <= i < s.len() ==> #[trigger] s[i] == t,
    ensures
        utf8_bytes(s) == s.len() * encode_utf8(t).len(),
    decreases s.len(),
{
    if s.len() > 0 {
        let p = s.drop_last();
        assert forall|i: int| 0 <= i < p.len() implies #[trigger] p[i] == t by {
            assert(p[i] == s[i]);
        }
        lemma_utf8_bytes_repeated(p, t);
        assert(s.last() == s[s.len() - 1]);
        let n = s.len() as int;
        let l = encode_utf8(t).len() as int;
        assert((n - 1) * l + l == n * l) by (nonlinear_arith);
    }
}

/// "episode" is 7 bytes of UTF-8.
proof fn lemma_episode_bytes()
    ensures
        encode_utf8("episode"@).len() == 7,
{
    reveal_strlit("episode");
    assert(is_ascii_chars("episode"@));
    is_ascii_chars_encode_utf8("episode"@);
}

proof fn lemma_list_rows_prefix(values: Seq<Seq<char>>, extra: Seq<Seq<char>>, lengths: Seq<usize>)
    requires
        total_len(lengths) <= values.len(),
    ensures
        list_rows(values + extra, lengths) == list_rows(values, lengths),
    decreases lengths.len(),
{
    if lengths.len() > 0 {
        lemma_total_len_grows(lengths);
        lemma_total_len_grows(lengths.drop_last());
        lemma_list_rows_prefix(values, extra, lengths.drop_last());
        assert((values + extra).subrange(total_len(lengths.drop_last()), total_len(lengths))
            =~= values.subrange(total_len(lengths.drop_last()), total_len(lengths)));
    }
}

proof fn lemma_total_len_grows(lengths: Seq<usize>)
    ensures
        0 <= total_len(lengths),
        lengths.len() > 0 ==> total_len(lengths.drop_last()) <= total_len(lengths),
    decreases lengths.len(),
{
    if lengths.len() > 0 {
        lemma_total_len_grows(lengths.drop_last());
    }
}

/// The row lengths and the concatenated strings of a list of string lists.
fn flatten_lists(lists: &Vec<Vec<String>>) -> (r: (Vec<usize>, Vec<String>))
    ensures
        r.0@.len() == lists@.len(),
        total_len(r.0@) == r.1@.len(),
        total_len(r.0@) == lists_total(lists@.map_values(|l: Vec<String>| texts(l))),
        list_rows(r.1@.map_values(|s: String| s@), r.0@) == lists@.map_values(|l: Vec<String>| texts(l)),
        r.1@.map_values(|s: String| s@) == flatten_texts(lists@.map_values(|l: Vec<String>| texts(l))),
{
    let mut lengths: Vec<usize> = Vec::new();
    let mut flat: Vec<String> = Vec::new();
    let ghost all = lists@.map_values(|l: Vec<String>| texts(l));
    for i in 0..lists.len()
        invariant
            all == lists@.map_values(|l: Vec<String>| texts(l)),
            lengths@.len() == i,
            total_len(lengths@) == flat@.len(),
            total_len(lengths@) == lists_total(all.take(i as int)),
            list_rows(flat@.map_values(|s: String| s@), lengths@) == all.take(i as int),
            flat@.map_values(|s: String| s@) == flatten_texts(all.take(i as int)),
    {
        let ghost before = flat@.map_values(|s: String| s@);
        let list = &lists[i];
        for k in 0..list.len()
            invariant
                flat@.len() == total_len(lengths@) + k,
                flat@.map_values(|s: String| s@) == before + texts(*list).take(k as int),
        {
            let ghost prev = flat@;
            let item = list[k].clone();
            assert(item@ == texts(*list)[k as int]);
            flat.push(item);
            assert(flat@ == prev.push(item));
            assert(flat@.map_values(|s: String| s@) =~= prev.map_values(|s: String| s@).push(item@));
            assert(texts(*list).take(k + 1) =~= texts(*list).take(k as int).push(item@));
            assert(flat@.map_values(|s: String| s@) =~= before + texts(*list).take(k + 1));
        }
        let ghost added = texts(*list);
        assert(added.take(list@.len() as int) =~= added);
        let ghost old_lengths = lengths@;
        lengths.push(list.len());
        proof {
            assert(lengths@.drop_last() =~= old_lengths);
            lemma_total_len_grows(old_lengths);
            lemma_list_rows_prefix(before, added, old_lengths);
            assert(flat@.map_values(|s: String| s@) == before + added);
            assert(before + added =~= (before + added).subrange(0, total_len(lengths@)));
            assert((before + added).subrange(total_len(old_lengths), total_len(lengths@)) =~= added);
            assert(all.take(i + 1).drop_last() =~= all.take(i as int));
            assert(all.take(i + 1) =~= all.take(i as int).push(added));
        }
    }
    assert(all.take(lists@.len() as int) =~= all);
    (lengths, flat)
}

proof fn lemma_lists_total_same_lengths(a: Seq<Seq<Seq<char>>>, b: Seq<Seq<Seq<char>>>)
    requires
        a.len() == b.len(),
        forall|i: int| 0 <= i < a.len() ==> #[trigger] a[i].len() == b[i].len(),
    ensures
        lists_total(a) == lists_total(b),
    decreases a.len(),
{
    if a.len() > 0 {
        lemma_lists_total_same_lengths(a.drop_last(), b.drop_last());
    }
}

/// `b` is the record batch of `episodes` under the facts schema for
/// embeddings of `dims` floats: one row per episode, in order.
pub open spec fn is_facts_batch_of(b: Batch, episodes: Seq<Episode>, dims: i32) -> bool {
    &&& batch_schema(b) == facts_fields(dims)
    &&& batch_num_rows(b) == episodes.len()
    &&& batch_column(b, "id"@) == Some(ColumnContent::Binary(episodes.map_values(|e: Episode| Some(e.id@))))
    &&& batch_column(b, "vector"@) == Some(ColumnContent::FloatList(dims, episodes.map_values(|e: Episode| vector_row(e))))
    &&& batch_column(b, "fact_kind"@) == Some(ColumnContent::Utf8(episodes.map_values(|e: Episode| Some("episode"@))))
    &&& batch_column(b, "session_id"@) == Some(ColumnContent::Utf8(episodes.map_values(|e: Episode| Some(e.session_id@))))
    &&& batch_column(b, "role"@) == Some(ColumnContent::Utf8(episodes.map_values(|e: Episode| Some(role_name(e.role)))))
    &&& batch_column(b, "content"@) == Some(ColumnContent::Utf8(episodes.map_values(|e: Episode| Some(e.content@))))
    &&& batch_column(b, "preview"@) == Some(ColumnContent::Utf8(episodes.map_values(|e: Episode| Some(preview_of(e.content@)))))
    &&& batch_column(b, "subject_id"@) == Some(ColumnContent::Utf8(Seq::new(episodes.len(), |i: int| None)))
    &&& batch_column(b, "predicate"@) == Some(ColumnContent::Utf8(Seq::new(episodes.len(), |i: int| None)))
    &&& batch_column(b, "object_id"@) == Some(ColumnContent::Utf8(Seq::new(episodes.len(), |i: int| None)))
    &&& batch_column(b, "object_value"@) == Some(ColumnContent::Utf8(Seq::new(episodes.len(), |i: int| None)))
    &&& batch_column(b, "confidence"@) == Some(ColumnContent::Float32(Seq::new(episodes.len(), |i: int| None)))
    &&& batch_column(b, "valid_from"@) == Some(ColumnContent::Int64(Seq::new(episodes.len(), |i: int| None)))
    &&& batch_column(b, "valid_until"@) == Some(ColumnContent::Int64(Seq::new(episodes.len(), |i: int| None)))
    &&& batch_column(b, "timestamp_ms"@) == Some(ColumnContent::Int64(episodes.map_values(|e: Episode| Some(e.timestamp_ms as i64))))
    &&& batch_column(b, "topic_tags"@) == Some(ColumnContent::Utf8List(episodes.map_values(|e: Episode| texts(e.metadata.topic_tags))))
    &&& batch_column(b, "entity_ids"@) == Some(ColumnContent::Utf8List(episodes.map_values(|e: Episode| texts(e.metadata.entity_ids))))
    &&& batch_column(b, "ttl_expires_ms"@) == Some(ColumnContent::UInt64(episodes.map_values(|e: Episode| ttl_cell(e))))
}

/// Convert a slice of episodes into a record batch matching `facts_schema`.
///
/// `embedding_dims` must match the schema used for the target table.
/// Episodes with `embedding = None` will have a null vector column entry.
pub fn episodes_to_record_batch(episodes: &[Episode], embedding_dims: i32) -> (r: Result<Batch, MembridError>)
    requires
        embedding_dims >= 0 || episodes@.len() == 0,
        episodes@.len() * embedding_dims <= usize::MAX,
        offsets_fit(episodes@),
        forall|i: int| 0 <= i < episodes@.len() ==> ttl_fits(#[trigger] episodes@[i]),
    ensures
        match first_wrong_dims(episodes@, embedding_dims, 0) {
            Some(k) => r matches Err(MembridError::Other(m)) && m@ == wrong_dims_message(
                episodes@[k].embedding->0@.len(),
                embedding_dims as nat,
            ),
            None => {
                &&& vector_rows_fit(episodes@, embedding_dims) ==> (r matches Ok(b) && is_facts_batch_of(
                    b,
                    episodes@,
                    embedding_dims,
                ))
                &&& !vector_rows_fit(episodes@, embedding_dims) ==> (r matches Err(MembridError::Arrow(_)))
            },
        },
{
    let n = episodes.len();
    let cols = episode_columns(episodes, embedding_dims)?;
    let schema = facts_schema_with_dims(embedding_dims);
    let ghost fields = facts_fields(embedding_dims);
    let ghost es = episodes@;
    let (topic_lengths, topic_values) = flatten_lists(&cols.topic_tags);
    let (entity_lengths, entity_values) = flatten_lists(&cols.entity_ids);
    proof {
        let ta = cols.topic_tags@.map_values(|l: Vec<String>| texts(l));
        let tb = es.map_values(|e: Episode| texts(e.metadata.topic_tags));
        assert(ta =~= tb);
        let ea = cols.entity_ids@.map_values(|l: Vec<String>| texts(l));
        let eb = es.map_values(|e: Episode| texts(e.metadata.entity_ids));
        assert(ea =~= eb);
        assert(cols.session_ids@.map_values(|s: String| s@) =~= es.map_values(|e: Episode| e.session_id@));
        assert(cols.roles@.map_values(|s: String| s@) =~= es.map_values(|e: Episode| role_name(e.role)));
        assert(cols.contents@.map_values(|s: String| s@) =~= es.map_values(|e: Episode| e.content@));
        assert(cols.previews@.map_values(|s: String| s@) =~= es.map_values(|e: Episode| preview_of(e.content@)));
        let kinds = cols.fact_kinds@.map_values(|s: String| s@);
        assert forall|i: int| 0 <= i < kinds.len() implies #[trigger] kinds[i] == "episode"@ by {
            assert(es[i] == episodes@[i]);
        }
        lemma_utf8_bytes_repeated(kinds, "episode"@);
        lemma_episode_bytes();
    }
    let ghost vector_list = cols.vector;
    let mut set = new_column_set();
    push_binary_ids(&mut set, &cols.ids);
    push_float_list(&mut set, cols.vector);
    push_utf8(&mut set, cols.fact_kinds);
    push_utf8(&mut set, cols.session_ids);
    push_utf8(&mut set, cols.roles);
    push_utf8(&mut set, cols.contents);
    push_utf8(&mut set, cols.previews);
    push_null_utf8(&mut set, n);  // subject_id
    push_null_utf8(&mut set, n);  // predicate
    push_null_utf8(&mut set, n);  // object_id
    push_null_utf8(&mut set, n);  // object_value
    push_null_float32(&mut set, n);  // confidence
    push_null_int64(&mut set, n);  // valid_from
    push_null_int64(&mut set, n);  // valid_until
    push_int64(&mut set, cols.timestamps_ms);
    push_utf8_lists(&mut set, topic_lengths, topic_values);
    push_utf8_lists(&mut set, entity_lengths, entity_values);
    push_opt_uint64(&mut set, cols.ttl_expires);
    let ghost set_cols = column_set(set);
    proof {
        assert(set_cols.len() == 18);
        assert(set_cols[0] == ColumnContent::Binary(cols.ids@.map_values(|id: [u8; 16]| Some(id@))));
        assert(cols.ids@.map_values(|id: [u8; 16]| Some(id@)) =~= es.map_values(|e: Episode| Some(e.id@)));
        assert(cols.fact_kinds@.map_values(|s: String| Some(s@)) =~= es.map_values(|e: Episode| Some("episode"@)));
        assert(cols.session_ids@.map_values(|s: String| Some(s@)) =~= es.map_values(|e: Episode| Some(e.session_id@)));
        assert(cols.roles@.map_values(|s: String| Some(s@)) =~= es.map_values(|e: Episode| Some(role_name(e.role))));
        assert(cols.contents@.map_values(|s: String| Some(s@)) =~= es.map_values(|e: Episode| Some(e.content@)));
        assert(cols.previews@.map_values(|s: String| Some(s@)) =~= es.map_values(|e: Episode| Some(preview_of(e.content@))));
        assert(cols.timestamps_ms@.map_values(|v: i64| Some(v)) =~= es.map_values(|e: Episode| Some(e.timestamp_ms as i64)));
        assert(cols.topic_tags@.map_values(|l: Vec<String>| texts(l)) =~= es.map_values(|e: Episode| texts(e.metadata.topic_tags)));
        assert(cols.entity_ids@.map_values(|l: Vec<String>| texts(l)) =~= es.map_values(|e: Episode| texts(e.metadata.entity_ids)));
        assert(cols.ttl_expires@ =~= es.map_values(|e: Episode| ttl_cell(e)));
        if vector_rows_fit(es, embedding_dims) {
            if embedding_dims == 0 && all_embedded(es) {
                assert(es.map_values(|e: Episode| vector_row(e)) =~= Seq::<Option<Seq<u32>>>::empty());
            }
            assert(float_list_rows(vector_list) == es.map_values(|e: Episode| vector_row(e)));
            assert forall|i: int| 0 <= i < 18 implies column_len(#[trigger] set_cols[i]) == n
                && column_type(set_cols[i]) == Some(fields[i].1) && (!fields[i].2 ==> !column_has_nulls(
                set_cols[i],
            )) by {
                assert(i == 0 || i == 1 || i == 2 || i == 3 || i == 4 || i == 5 || i == 6 || i == 7
                    || i == 8 || i == 9 || i == 10 || i == 11 || i == 12 || i == 13 || i == 14 || i
                    == 15 || i == 16 || i == 17);
            }
            assert(columns_fit(fields, set_cols));
        }
    }
    match batch_try_new(schema, set) {
        Ok(b) => {
            proof {
                lemma_facts_field_names_distinct(embedding_dims);
                if !vector_rows_fit(es, embedding_dims) {
                    // The vector column has no rows while the id column has one per episode.
                    assert(column_len(set_cols[0]) == n);
                    assert(column_len(set_cols[1]) == 0);
                    assert(column_len(set_cols[0]) == batch_num_rows(b));
                    assert(column_len(set_cols[1]) == batch_num_rows(b));
                }
            }
            Ok(b)
        },
        Err(e) => Err(MembridError::Arrow(e)),
    }
}

// ---------------------------------------------------------------------------
// Columns -> RetrievedMemory
// ---------------------------------------------------------------------------

/// What reading a column of a record batch gave: no column of that name, a
/// column of another type, or the column's values row by row.
pub enum ColumnRead<T> {
    Missing,
    WrongType,
    Values(Vec<T>),
}

/// A memory id taken from raw bytes: the first 16 bytes, zero-padded when
/// there are fewer.
pub open spec fn padded_id(raw: Seq<u8>) -> Seq<u8> {
    Seq::new(16, |k: int| if k < raw.len() { raw[k] } else { 0u8 })
}

/// Whether a column could be read: missing, of another type, or present.
#[derive(Debug, Clone, Copy, PartialEq, Eq, Structural)]
pub enum ReadStatus {
    Missing,
    WrongType,
    Present,
}

/// The status of a column read.
pub open spec fn read_status<T>(read: ColumnRead<T>) -> ReadStatus {
    match read {
        ColumnRead::Missing => ReadStatus::Missing,
        ColumnRead::WrongType => ReadStatus::WrongType,
        ColumnRead::Values(_) => ReadStatus::Present,
    }
}

/// The status of reading the column `name` of a record batch as `kind`.
pub open spec fn batch_read_status(b: Batch, name: Seq<char>, kind: ColumnKind) -> ReadStatus {
    match batch_column(b, name) {
        None => ReadStatus::Missing,
        Some(c) => if column_kind_of(c) == kind {
            ReadStatus::Present
        } else {
            ReadStatus::WrongType
        },
    }
}

/// The message of the error that reading the column `name` gives, if any.
pub open spec fn column_error(status: ReadStatus, name: Seq<char>, expected: Seq<char>) -> Option<Seq<char>> {
    match status {
        ReadStatus::Missing => Some("missing '"@ + name + "' column"@),
        ReadStatus::WrongType => Some("'"@ + name + "' column is not "@ + expected),
        ReadStatus::Present => None,
    }
}

/// The error message for `n` rows and `k` scores, or for the first failed
/// column read, in that order; `None` when the rows can be read.
pub open spec fn retrieval_error(
    n: nat,
    k: nat,
    id: ReadStatus,
    content: ReadStatus,
    timestamp_ms: ReadStatus,
) -> Option<Seq<char>> {
    if k != n {
        Some("scores length "@ + decimal(k) + ", batch rows "@ + decimal(n))
    } else if column_error(id, "id"@, "Binary"@) is Some {
        column_error(id, "id"@, "Binary"@)
    } else if column_error(content, "content"@, "Utf8"@) is Some {
        column_error(content, "content"@, "Utf8"@)
    } else {
        column_error(timestamp_ms, "timestamp_ms"@, "Int64"@)
    }
}

/// The memory retrieved from one row.
pub open spec fn is_retrieved_row(
    r: RetrievedMemory,
    raw_id: Seq<u8>,
    content: Seq<char>,
    timestamp_ms: i64,
    score: u32,
    tier: MemoryTier,
) -> bool {
    &&& r.id@ == padded_id(raw_id)
    &&& r.content@ == content
    &&& r.score == score
    &&& r.tier == tier
    &&& r.timestamp_ms == timestamp_ms as u64
    &&& r.metadata is Null
}

/// The `Other` error with the given text.
fn other_error(msg: &str) -> (e: MembridError)
    ensures
        e matches MembridError::Other(m) && m@ == msg@,
{
    MembridError::other(msg)
}

/// The `Other` error for a failed read of the column `name`.
fn column_read_error(missing: bool, name: &str, expected: &str) -> (e: MembridError)
    ensures
        e matches MembridError::Other(m) && m@ == (if missing {
            "missing '"@ + name@ + "' column"@
        } else {
            "'"@ + name@ + "' column is not "@ + expected@
        }),
{
    let mut m = if missing {
        String::from_str("missing '")
    } else {
        String::from_str("'")
    };
    m.append(name);
    if missing {
        m.append("' column");
    } else {
        m.append("' column is not ");
        m.append(expected);
    }
    MembridError::Other(m)
}

/// Extracts `RetrievedMemory` entries from the columns of a search result
/// of `num_rows` rows. `scores` are the bit patterns of the ANN similarity
/// scores returned alongside the rows, one per row.
pub fn retrieved_from_columns(
    num_rows: usize,
    scores: &[u32],
    id: ColumnRead<Vec<u8>>,
    content: ColumnRead<String>,
    timestamp_ms: ColumnRead<i64>,
    tier: MemoryTier,
) -> (r: Result<Vec<RetrievedMemory>, MembridError>)
    requires
        id matches ColumnRead::Values(v) ==> v@.len() == num_rows,
        content matches ColumnRead::Values(v) ==> v@.len() == num_rows,
        timestamp_ms matches ColumnRead::Values(v) ==> v@.len() == num_rows,
    ensures
        match retrieval_error(
            num_rows as nat,
            scores@.len(),
            read_status(id),
            read_status(content),
            read_status(timestamp_ms),
        ) {
            Some(msg) => r matches Err(MembridError::Other(m)) && m@ == msg,
            None => r matches Ok(out) && {
                &&& id matches ColumnRead::Values(ids)
                &&& content matches ColumnRead::Values(contents)
                &&& timestamp_ms matches ColumnRead::Values(ts)
                &&& out@.len() == num_rows
                &&& forall|i: int|
                    0 <= i < num_rows ==> is_retrieved_row(
                        #[trigger] out@[i],
                        ids@[i]@,
                        contents@[i]@,
                        ts@[i],
                        scores@[i],
                        tier,
                    )
            },
        },
{
    let n = num_rows;
    if scores.len() != n {
        let mut m = String::from_str("scores length ");
        m.append(usize_to_decimal(scores.len()).as_str());
        m.append(", batch rows ");
        m.append(usize_to_decimal(n).as_str());
        return Err(MembridError::Other(m));
    }
    let ids = match id {
        ColumnRead::Missing => {
            return Err(column_read_error(true, "id", "Binary"));
        },
        ColumnRead::WrongType => {
            return Err(column_read_error(false, "id", "Binary"));
        },
        ColumnRead::Values(v) => v,
    };
    let contents = match content {
        ColumnRead::Missing => {
            return Err(column_read_error(true, "content", "Utf8"));
        },
        ColumnRead::WrongType => {
            return Err(column_read_error(false, "content", "Utf8"));
        },
        ColumnRead::Values(v) => v,
    };
    let timestamps = match timestamp_ms {
        ColumnRead::Missing => {
            return Err(column_read_error(true, "timestamp_ms", "Int64"));
        },
        ColumnRead::WrongType => {
            return Err(column_read_error(false, "timestamp_ms", "Int64"));
        },
        ColumnRead::Values(v) => v,
    };
    let mut results: Vec<RetrievedMemory> = Vec::new();
    for i in 0..n
        invariant
            n == ids@.len(),
            n == contents@.len(),
            n == timestamps@.len(),
            n == scores@.len(),
            results@.len() == i,
            forall|j: int|
                0 <= j < i ==> is_retrieved_row(
                    #[trigger] results@[j],
                    ids@[j]@,
                    contents@[j]@,
                    timestamps@[j],
                    scores@[j],
                    tier,
                ),
    {
        let raw = &ids[i];
        let copy_len = if raw.len() < 16 {
            raw.len()
        } else {
            16
        };
        let mut mid: MemoryId = [0u8; 16];
        for k in 0..copy_len
            invariant
                copy_len <= 16,
                copy_len <= raw@.len(),
                mid@.len() == 16,
                forall|m: int| 0 <= m < k ==> mid@[m] == raw@[m],
                forall|m: int| k <= m < 16 ==> mid@[m] == 0u8,
        {
            mid[k] = raw[k];
        }
        assert(mid@ =~= padded_id(raw@));
        let ts: u64 = #[verifier::truncate] (timestamps[i] as u64);
        results.push(
            RetrievedMemory {
                id: mid,
                content: contents[i].clone(),
                score: scores[i],
                tier,
                timestamp_ms: ts,
                metadata: MemoryMetadata::Null,
            },
        );
    }
    Ok(results)
}

/// The binary column `name` of a record batch of `n` rows, row by row.
fn read_binary_column(b: &Batch, name: &str, n: usize) -> (r: ColumnRead<Vec<u8>>)
    requires
        n == batch_num_rows(*b),
    ensures
        read_status(r) == batch_read_status(*b, name@, ColumnKind::Binary),
        r matches ColumnRead::Values(v) ==> v@.len() == n && forall|i: int|
            0 <= i < n ==> v@[i]@ == binary_slot(*b, name@, i) && (#[trigger] binary_cell(*b, name@, i) matches Some(x) ==> v@[i]@ == x),
{
    let rows = num_rows(b);
    match column_kind(b, name) {
        None => ColumnRead::Missing,
        Some(ColumnKind::Binary) => {
            let mut v: Vec<Vec<u8>> = Vec::new();
            for i in 0..n
                invariant
                    n == rows,
                    batch_column(*b, name@) matches Some(c) && column_kind_of(c) == ColumnKind::Binary
                        && column_len(c) == n,
                    v@.len() == i,
                    forall|j: int|
                        0 <= j < i ==> v@[j]@ == binary_slot(*b, name@, j) && (#[trigger] binary_cell(*b, name@, j) matches Some(x) ==> v@[j]@
                            == x),
            {
                v.push(binary_value(b, name, i));
            }
            ColumnRead::Values(v)
        },
        Some(_) => ColumnRead::WrongType,
    }
}

/// The UTF-8 column `name` of a record batch of `n` rows, row by row.
fn read_utf8_column(b: &Batch, name: &str, n: usize) -> (r: ColumnRead<String>)
    requires
        n == batch_num_rows(*b),
    ensures
        read_status(r) == batch_read_status(*b, name@, ColumnKind::Utf8),
        r matches ColumnRead::Values(v) ==> v@.len() == n && forall|i: int|
            0 <= i < n ==> v@[i]@ == utf8_slot(*b, name@, i) && (#[trigger] utf8_cell(*b, name@, i) matches Some(x) ==> v@[i]@ == x),
{
    let rows = num_rows(b);
    match column_kind(b, name) {
        None => ColumnRead::Missing,
        Some(ColumnKind::Utf8) => {
            let mut v: Vec<String> = Vec::new();
            for i in 0..n
                invariant
                    n == rows,
                    batch_column(*b, name@) matches Some(c) && column_kind_of(c) == ColumnKind::Utf8
                        && column_len(c) == n,
                    v@.len() == i,
                    forall|j: int|
                        0 <= j < i ==> v@[j]@ == utf8_slot(*b, name@, j) && (#[trigger] utf8_cell(*b, name@, j) matches Some(x) ==> v@[j]@
                            == x),
            {
                v.push(utf8_value(b, name, i));
            }
            ColumnRead::Values(v)
        },
        Some(_) => ColumnRead::WrongType,
    }
}

/// The 64-bit integer column `name` of a record batch of `n` rows, row by row.
fn read_int64_column(b: &Batch, name: &str, n: usize) -> (r: ColumnRead<i64>)
    requires
        n == batch_num_rows(*b),
    ensures
        read_status(r) == batch_read_status(*b, name@, ColumnKind::Int64),
        r matches ColumnRead::Values(v) ==> v@.len() == n && forall|i: int|
            0 <= i < n ==> v@[i] == int64_slot(*b, name@, i) && (#[trigger] int64_cell(*b, name@, i) matches Some(x) ==> v@[i] == x),
{
    let rows = num_rows(b);
    match column_kind(b, name) {
        None => ColumnRead::Missing,
        Some(ColumnKind::Int64) => {
            let mut v: Vec<i64> = Vec::new();
            for i in 0..n
                invariant
                    n == rows,
                    batch_column(*b, name@) matches Some(c) && column_kind_of(c) == ColumnKind::Int64
                        && column_len(c) == n,
                    v@.len() == i,
                    forall|j: int|
                        0 <= j < i ==> v@[j] == int64_slot(*b, name@, j) && (#[trigger] int64_cell(*b, name@, j) matches Some(x) ==> v@[j]
                            == x),
            {
                v.push(int64_value(b, name, i));
            }
            ColumnRead::Values(v)
        },
        Some(_) => ColumnRead::WrongType,
    }
}

/// The memory read from row `i` of a record batch: the row's id (the first
/// 16 bytes of its `id` slot, zero-padded), content and timestamp, as their
/// slots hold them (the cells' values where those are not null), with the
/// given score and tier.
pub open spec fn is_row_memory(r: RetrievedMemory, b: Batch, i: int, score: u32, tier: MemoryTier) -> bool {
    &&& r.id@ == padded_id(binary_slot(b, "id"@, i))
    &&& r.content@ == utf8_slot(b, "content"@, i)
    &&& r.timestamp_ms == int64_slot(b, "timestamp_ms"@, i) as u64
    &&& binary_cell(b, "id"@, i) matches Some(x) ==> r.id@ == padded_id(x)
    &&& utf8_cell(b, "content"@, i) matches Some(x) ==> r.content@ == x
    &&& int64_cell(b, "timestamp_ms"@, i) matches Some(t) ==> r.timestamp_ms == t as u64
    &&& r.score == score
    &&& r.tier == tier
    &&& r.metadata is Null
}

/// Extract `RetrievedMemory` entries from a search result record batch.
///
/// `scores` are the bit patterns of the ANN similarity scores returned
/// alongside the batch, one per row.
pub fn record_batch_to_retrieved(batch: &Batch, scores: &[u32], tier: MemoryTier) -> (r: Result<
    Vec<RetrievedMemory>,
    MembridError,
>)
    ensures
        match retrieval_error(
            batch_num_rows(*batch),
            scores@.len(),
            batch_read_status(*batch, "id"@, ColumnKind::Binary),
            batch_read_status(*batch, "content"@, ColumnKind::Utf8),
            batch_read_status(*batch, "timestamp_ms"@, ColumnKind::Int64),
        ) {
            Some(msg) => r matches Err(MembridError::Other(m)) && m@ == msg,
            None => r matches Ok(out) && out@.len() == batch_num_rows(*batch) && forall|i: int|
                0 <= i < out@.len() ==> is_row_memory(#[trigger] out@[i], *batch, i, scores@[i], tier),
        },
{
    let n = num_rows(batch);
    let ids = read_binary_column(batch, "id", n);
    let contents = read_utf8_column(batch, "content", n);
    let timestamps = read_int64_column(batch, "timestamp_ms", n);
    let ghost id_read = ids;
    let ghost content_read = contents;
    let ghost ts_read = timestamps;
    let r = retrieved_from_columns(n, scores, ids, contents, timestamps, tier);
    proof {
        if r is Ok {
            let out = r->Ok_0;
            assert forall|i: int| 0 <= i < out@.len() implies is_row_memory(
                #[trigger] out@[i],
                *batch,
                i,
                scores@[i],
                tier,
            ) by {
                let ids_v = id_read->Values_0;
                let contents_v = content_read->Values_0;
                let ts_v = ts_read->Values_0;
                assert(ids_v@[i]@ == binary_slot(*batch, "id"@, i));
                assert(contents_v@[i]@ == utf8_slot(*batch, "content"@, i));
                assert(ts_v@[i] == int64_slot(*batch, "timestamp_ms"@, i));
                assert(binary_cell(*batch, "id"@, i) matches Some(x) ==> ids_v@[i]@ == x);
                assert(utf8_cell(*batch, "content"@, i) matches Some(x) ==> contents_v@[i]@ == x);
                assert(int64_cell(*batch, "timestamp_ms"@, i) matches Some(x) ==> ts_v@[i] == x);
            }
        }
    }
    r
}

// ---------------------------------------------------------------------------
// Round trip
// ---------------------------------------------------------------------------

proof fn lemma_timestamp_round_trip(t: u64)
    ensures
        ((t as i64) as u64) == t,
{
    assert(((t as i64) as u64) == t) by (bit_vector);
}

/// Reading back the record batch of a list of episodes never fails when
/// there is one score per row, and gives each episode's id, content and
/// timestamp, in the episodes' order, with its score, the tier and no
/// metadata.
pub proof fn lemma_round_trip(
    episodes: Seq<Episode>,
    dims: i32,
    b: Batch,
    scores: Seq<u32>,
    tier: MemoryTier,
    out: Seq<RetrievedMemory>,
)
    requires
        is_facts_batch_of(b, episodes, dims),
        scores.len() == episodes.len(),
    ensures
        retrieval_error(
            batch_num_rows(b),
            scores.len(),
            batch_read_status(b, "id"@, ColumnKind::Binary),
            batch_read_status(b, "content"@, ColumnKind::Utf8),
            batch_read_status(b, "timestamp_ms"@, ColumnKind::Int64),
        ) is None,
        out.len() == episodes.len() && (forall|i: int|
            0 <= i < out.len() ==> is_row_memory(#[trigger] out[i], b, i, scores[i], tier))
            ==> forall|i: int|
            #![trigger out[i]]
            0 <= i < out.len() ==> {
                &&& out[i].id@ == episodes[i].id@
                &&& out[i].content@ == episodes[i].content@
                &&& out[i].timestamp_ms == episodes[i].timestamp_ms
                &&& out[i].score == scores[i]
                &&& out[i].tier == tier
                &&& out[i].metadata is Null
            },
{
    if out.len() == episodes.len() && (forall|i: int|
        0 <= i < out.len() ==> is_row_memory(#[trigger] out[i], b, i, scores[i], tier)) {
        assert forall|i: int|
            #![trigger out[i]]
            0 <= i < out.len() implies {
            &&& out[i].id@ == episodes[i].id@
            &&& out[i].content@ == episodes[i].content@
            &&& out[i].timestamp_ms == episodes[i].timestamp_ms
            &&& out[i].score == scores[i]
            &&& out[i].tier == tier
            &&& out[i].metadata is Null
        } by {
            let e = episodes[i];
            assert(is_row_memory(out[i], b, i, scores[i], tier));
            assert(binary_cell(b, "id"@, i) == Some(e.id@));
            assert(padded_id(e.id@) =~= e.id@);
            assert(utf8_cell(b, "content"@, i) == Some(e.content@));
            assert(int64_cell(b, "timestamp_ms"@, i) == Some(e.timestamp_ms as i64));
            lemma_timestamp_round_trip(e.timestamp_ms);
        }
    }
}

} // verus!
