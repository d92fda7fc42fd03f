use arrow_array::Array;
use membrid::arrow::convert::{
    episode_columns, episodes_to_record_batch, record_batch_to_retrieved, retrieved_from_columns,
    ColumnRead,
};
use membrid::arrow::interop::Batch;
use membrid::arrow::{edge_schema, entities_schema, facts_schema, facts_schema_with_dims};
use membrid::error::MembridError;
use membrid::types::{Episode, MemoryMetadata, MemoryTier, Role};

fn make_episode(content: &str, dims: usize) -> Episode {
    let mut ep = Episode::new("test-session", Role::User, content);
    ep.embedding = Some(vec![0.1f32.to_bits(); dims]);
    ep
}

fn id_read(ids: &[[u8; 16]]) -> ColumnRead<Vec<u8>> {
    ColumnRead::Values(ids.iter().map(|i| i.to_vec()).collect())
}

#[test]
fn round_trip_episode_to_record_batch() {
    let ep = make_episode("hello world", 768);
    let batch = episodes_to_record_batch(&[ep.clone()], 768).unwrap();
    assert_eq!(batch.batch.num_rows(), 1);

    let scores = vec![1.0f32.to_bits()];
    let retrieved = record_batch_to_retrieved(&batch, &scores, MemoryTier::Fact).unwrap();
    assert_eq!(retrieved.len(), 1);
    assert_eq!(retrieved[0].content, "hello world");
    assert_eq!(retrieved[0].id, ep.id);
}

#[test]
fn null_embedding_is_allowed() {
    let mut ep = Episode::new("test-session", Role::Assistant, "no embedding yet");
    ep.embedding = None;
    let batch = episodes_to_record_batch(&[ep], 768).unwrap();
    assert_eq!(batch.batch.num_rows(), 1);
}

#[test]
fn wrong_embedding_dims_returns_error() {
    let mut ep = Episode::new("test-session", Role::User, "bad dims");
    ep.embedding = Some(vec![0.0f32.to_bits(); 512]); // wrong: schema expects 768
    let result = episodes_to_record_batch(&[ep], 768);
    assert!(result.is_err());
}

#[test]
fn round_trip_keeps_timestamps_scores_and_tier() {
    let a = Episode::new_at("s", Role::User, "alpha", 7);
    let b = Episode::new_at("s", Role::System, "beta", u64::MAX);
    let batch = episodes_to_record_batch(&[a.clone(), b.clone()], 3).unwrap();
    let scores = [0.5f32.to_bits(), 0.75f32.to_bits()];
    let r = record_batch_to_retrieved(&batch, &scores, MemoryTier::Relationship).unwrap();
    assert_eq!(r.len(), 2);
    assert_eq!((r[0].id, r[0].timestamp_ms), (a.id, 7));
    assert_eq!((r[1].id, r[1].timestamp_ms), (b.id, u64::MAX));
    assert_eq!(f32::from_bits(r[1].score), 0.75);
    assert_eq!(r[0].tier, MemoryTier::Relationship);
    assert!(matches!(r[0].metadata, MemoryMetadata::Null));
}

#[test]
fn record_batch_columns_follow_the_facts_schema() {
    let mut a = Episode::new_at("sess", Role::User, "with tags", 9);
    a.metadata.topic_tags = vec!["t1".to_string(), "t2".to_string()];
    a.metadata.entity_ids = vec!["person:alice".to_string()];
    a.embedding = Some(vec![2.0f32.to_bits(), 4.0f32.to_bits()]);
    let b = Episode::new_at("sess", Role::Assistant, "plain", 10);
    let batch = episodes_to_record_batch(&[a, b], 2).unwrap().batch;
    assert_eq!(batch.schema().fields().len(), 18);
    let kinds = batch.column_by_name("fact_kind").unwrap();
    let kinds = kinds.as_any().downcast_ref::<arrow_array::StringArray>().unwrap();
    assert_eq!(kinds.value(1), "episode");
    let roles = batch.column_by_name("role").unwrap();
    let roles = roles.as_any().downcast_ref::<arrow_array::StringArray>().unwrap();
    assert_eq!(roles.value(0), "user");
    assert_eq!(roles.value(1), "assistant");
    assert_eq!(batch.column_by_name("subject_id").unwrap().null_count(), 2);
    assert_eq!(batch.column_by_name("confidence").unwrap().null_count(), 2);
    let vector = batch.column_by_name("vector").unwrap();
    let vector = vector.as_any().downcast_ref::<arrow_array::FixedSizeListArray>().unwrap();
    assert!(vector.is_valid(0));
    assert!(vector.is_null(1));
    let tags = batch.column_by_name("topic_tags").unwrap();
    let tags = tags.as_any().downcast_ref::<arrow_array::ListArray>().unwrap();
    let first = tags.value(0);
    let first = first.as_any().downcast_ref::<arrow_array::StringArray>().unwrap();
    assert_eq!((first.value(0), first.value(1)), ("t1", "t2"));
    assert_eq!(tags.value(1).len(), 0);
}

#[test]
fn reading_a_batch_without_content_fails() {
    let schema = std::sync::Arc::new(arrow_schema::Schema::new(vec![
        arrow_schema::Field::new("id", arrow_schema::DataType::Binary, false),
    ]));
    let ids = arrow_array::BinaryArray::from_iter_values([[1u8; 16]]);
    let rb = arrow_array::RecordBatch::try_new(schema, vec![std::sync::Arc::new(ids)]).unwrap();
    match record_batch_to_retrieved(&Batch { batch: rb }, &[0], MemoryTier::Fact) {
        Err(MembridError::Other(m)) => assert_eq!(m, "missing 'content' column"),
        _ => panic!("expected an error"),
    }
}

#[test]
fn columns_hold_the_null_vector_row() {
    let mut ep = Episode::new("test-session", Role::Assistant, "no embedding yet");
    ep.embedding = None;
    let cols = episode_columns(&[ep], 768).unwrap();
    assert_eq!(cols.ids.len(), 1);
    assert_eq!(cols.vector.len(), 1);
    assert!(cols.vector.is_null(0));
}

#[test]
fn wrong_embedding_dims_message() {
    let ok = make_episode("fine", 4);
    let mut bad = make_episode("bad", 4);
    bad.embedding = Some(vec![0u32; 3]);
    match episode_columns(&[ok, bad], 4) {
        Err(MembridError::Other(m)) => assert_eq!(m, "episode embedding has 3 dims, expected 4"),
        _ => panic!("expected a dims error"),
    }
}

#[test]
fn columns_hold_episode_values() {
    let mut a = Episode::new_at("s-a", Role::User, "first", 10);
    a.embedding = Some(vec![1.5f32.to_bits(), 2.5f32.to_bits()]);
    a.metadata.topic_tags = vec!["weather".to_string()];
    let b = Episode::new_at("s-b", Role::Assistant, "second", 20);
    let cols = episode_columns(&[a.clone(), b.clone()], 2).unwrap();
    assert_eq!(cols.ids, vec![a.id, b.id]);
    assert_eq!(cols.fact_kinds, vec!["episode", "episode"]);
    assert_eq!(cols.session_ids, vec!["s-a", "s-b"]);
    assert_eq!(cols.roles, vec!["user", "assistant"]);
    assert_eq!(cols.contents, vec!["first", "second"]);
    assert_eq!(cols.previews, vec!["first", "second"]);
    assert_eq!(cols.timestamps_ms, vec![10, 20]);
    assert_eq!(cols.topic_tags, vec![vec!["weather".to_string()], vec![]]);
    assert_eq!(cols.vector.len(), 2);
    assert!(cols.vector.is_valid(0));
    assert!(cols.vector.is_null(1));
    assert_eq!(cols.vector.value_length(), 2);
    let first = cols.vector.value(0);
    let floats = first.as_any().downcast_ref::<arrow_array::Float32Array>().unwrap();
    assert_eq!(floats.values().to_vec(), vec![1.5f32, 2.5f32]);
}

#[test]
fn retrieved_errors_name_the_failing_column() {
    let msg = |r: Result<Vec<membrid::RetrievedMemory>, MembridError>| match r {
        Err(MembridError::Other(m)) => m,
        _ => panic!("expected an error"),
    };
    let ids = || id_read(&[[1u8; 16]]);
    let contents = || ColumnRead::Values(vec!["c".to_string()]);
    let ts = || ColumnRead::Values(vec![5i64]);
    let one = [0u32];
    assert_eq!(
        msg(retrieved_from_columns(1, &[], ids(), contents(), ts(), MemoryTier::Fact)),
        "scores length 0, batch rows 1"
    );
    assert_eq!(
        msg(retrieved_from_columns(1, &one, ColumnRead::Missing, contents(), ts(), MemoryTier::Fact)),
        "missing 'id' column"
    );
    assert_eq!(
        msg(retrieved_from_columns(1, &one, ColumnRead::WrongType, contents(), ts(), MemoryTier::Fact)),
        "'id' column is not Binary"
    );
    assert_eq!(
        msg(retrieved_from_columns(1, &one, ids(), ColumnRead::Missing, ts(), MemoryTier::Fact)),
        "missing 'content' column"
    );
    assert_eq!(
        msg(retrieved_from_columns(1, &one, ids(), ColumnRead::WrongType, ts(), MemoryTier::Fact)),
        "'content' column is not Utf8"
    );
    assert_eq!(
        msg(retrieved_from_columns(1, &one, ids(), contents(), ColumnRead::Missing, MemoryTier::Fact)),
        "missing 'timestamp_ms' column"
    );
    assert_eq!(
        msg(retrieved_from_columns(1, &one, ids(), contents(), ColumnRead::WrongType, MemoryTier::Fact)),
        "'timestamp_ms' column is not Int64"
    );
}

#[test]
fn short_ids_are_zero_padded_and_long_ids_cut() {
    let r = retrieved_from_columns(
        2,
        &[0.5f32.to_bits(), 0.25f32.to_bits()],
        ColumnRead::Values(vec![vec![7u8, 8, 9], (0u8..20).collect()]),
        ColumnRead::Values(vec!["a".to_string(), "b".to_string()]),
        ColumnRead::Values(vec![-1i64, 3]),
        MemoryTier::Relationship,
    )
    .unwrap();
    let mut short = [0u8; 16];
    short[..3].copy_from_slice(&[7, 8, 9]);
    assert_eq!(r[0].id, short);
    let long: Vec<u8> = (0u8..16).collect();
    assert_eq!(&r[1].id[..], &long[..]);
    assert_eq!(r[0].timestamp_ms, u64::MAX);
    assert_eq!(f32::from_bits(r[1].score), 0.25);
}

fn names(schema: &arrow_schema::Schema) -> Vec<String> {
    schema.fields().iter().map(|f| f.name().clone()).collect()
}

#[test]
fn facts_schema_has_required_fields() {
    let schema = facts_schema();
    let names = names(&schema);
    for required in &["id", "vector", "fact_kind", "session_id", "content", "timestamp_ms"] {
        assert!(names.iter().any(|n| n == required), "missing field: {required}");
    }
}

#[test]
fn entities_schema_has_required_fields() {
    let schema = entities_schema();
    let names = names(&schema);
    for required in &["id", "label", "name", "aliases"] {
        assert!(names.iter().any(|n| n == required), "missing field: {required}");
    }
}

#[test]
fn edge_schema_has_required_fields() {
    let schema = edge_schema();
    let names = names(&schema);
    for required in &["src_id", "dst_id", "weight"] {
        assert!(names.iter().any(|n| n == required), "missing field: {required}");
    }
}

#[test]
fn facts_schema_vector_field_has_requested_dims() {
    let schema = facts_schema_with_dims(384);
    assert_eq!(schema.fields().len(), 18);
    let vector = schema.field_with_name("vector").unwrap();
    assert!(vector.is_nullable());
    match vector.data_type() {
        arrow_schema::DataType::FixedSizeList(item, n) => {
            assert_eq!(*n, 384);
            assert_eq!(item.data_type(), &arrow_schema::DataType::Float32);
        }
        other => panic!("unexpected type {other:?}"),
    }
    assert!(!schema.field_with_name("id").unwrap().is_nullable());
}

#[test]
fn ttl_expires_ms_column_holds_expiry_or_null() {
    let mut a = Episode::new_at("s", Role::User, "expires", 1_000);
    a.ttl_secs = Some(60);
    let b = Episode::new_at("s", Role::User, "forever", 2_000);
    let batch = episodes_to_record_batch(&[a, b], 2).unwrap().batch;
    let field = batch.schema().field_with_name("ttl_expires_ms").unwrap().clone();
    assert!(field.is_nullable());
    assert_eq!(field.data_type(), &arrow_schema::DataType::UInt64);
    let col = batch.column_by_name("ttl_expires_ms").unwrap();
    let col = col.as_any().downcast_ref::<arrow_array::UInt64Array>().unwrap();
    assert_eq!(col.value(0), 61_000);
    assert!(col.is_null(1));
}

#[test]
fn vector_column_omits_bitmap_when_all_rows_valid() {
    let a = make_episode("one", 3);
    let b = make_episode("two", 3);
    let cols = episode_columns(&[a, b], 3).unwrap();
    assert!(cols.vector.nulls().is_none());
}

#[test]
fn vector_null_rows_hold_zeros() {
    let a = make_episode("one", 2);
    let mut b = Episode::new("s", Role::User, "none");
    b.embedding = None;
    let cols = episode_columns(&[a, b], 2).unwrap();
    assert!(cols.vector.nulls().is_some());
    let values = cols.vector.values();
    let floats = values.as_any().downcast_ref::<arrow_array::Float32Array>().unwrap();
    assert_eq!(floats.values().to_vec(), vec![0.1f32, 0.1, 0.0, 0.0]);
}

#[test]
fn zero_dims_without_embeddings_builds_one_row_per_episode() {
    let mut a = Episode::new("s", Role::User, "a");
    a.embedding = None;
    let b = Episode::new("s", Role::User, "b");
    let batch = episodes_to_record_batch(&[a, b], 0).unwrap().batch;
    assert_eq!(batch.num_rows(), 2);
    assert_eq!(batch.column_by_name("vector").unwrap().null_count(), 2);
}

#[test]
fn zero_dims_with_every_embedding_present_fails() {
    let mut a = Episode::new("s", Role::User, "a");
    a.embedding = Some(vec![]);
    match episodes_to_record_batch(&[a], 0) {
        Err(MembridError::Arrow(_)) => {}
        _ => panic!("expected an Arrow error"),
    }
}
