use membrid::arrow::convert::episodes_to_record_batch;
use membrid::arrow::facts_schema;
use membrid::storage::memory::extract_id;
use membrid::storage::InMemoryFactStore;
use membrid::types::{Episode, Role};

fn make_episode(content: &str, vec: Vec<u32>) -> Episode {
    let mut ep = Episode::new("test", Role::User, content);
    ep.embedding = Some(vec);
    ep
}

fn ones() -> Vec<u32> {
    vec![1.0f32.to_bits(); 768]
}

fn contents(store: &InMemoryFactStore) -> Vec<String> {
    let mut out: Vec<String> = store
        .rows()
        .into_iter()
        .map(|b| {
            let col = b.batch.column_by_name("content").unwrap();
            let col = col.as_any().downcast_ref::<arrow_array::StringArray>().unwrap();
            col.value(0).to_string()
        })
        .collect();
    out.sort();
    out
}

#[test]
fn insert_and_len() {
    let mut store = InMemoryFactStore::new(facts_schema());
    assert!(store.is_empty());

    let ep = make_episode("hello", ones());
    let batch = episodes_to_record_batch(&[ep], 768).unwrap();
    store.insert(batch);

    assert_eq!(store.len(), 1);
}

#[test]
fn delete_removes_episode() {
    let mut store = InMemoryFactStore::new(facts_schema());

    let ep = make_episode("to be deleted", ones());
    let id = ep.id;
    let batch = episodes_to_record_batch(&[ep], 768).unwrap();
    store.insert(batch);
    assert_eq!(store.len(), 1);

    store.delete(&[id]);
    assert!(store.is_empty());
}

#[test]
fn upsert_overwrites_same_id() {
    let mut store = InMemoryFactStore::new(facts_schema());

    let ep = make_episode("original", ones());
    let batch = episodes_to_record_batch(&[ep.clone()], 768).unwrap();
    store.insert(batch);

    // Re-insert same id: store should still have 1 row.
    let batch2 = episodes_to_record_batch(&[ep], 768).unwrap();
    store.insert(batch2);

    assert_eq!(store.len(), 1);
}

#[test]
fn one_row_per_episode_and_rows_keep_their_content() {
    let mut store = InMemoryFactStore::new(facts_schema());
    let a = Episode::new_at("t", Role::User, "episode one", 1);
    let b = Episode::new_at("t", Role::User, "episode two", 1);
    store.insert(episodes_to_record_batch(&[a.clone(), b], 768).unwrap());
    assert_eq!(store.len(), 2);
    assert_eq!(contents(&store), vec!["episode one".to_string(), "episode two".to_string()]);
    store.delete(&[a.id, [9u8; 16]]);
    assert_eq!(contents(&store), vec!["episode two".to_string()]);
    assert_eq!(store.schema().fields().len(), 18);
}

#[test]
fn rows_without_binary_id_are_skipped() {
    let schema = std::sync::Arc::new(arrow_schema::Schema::new(vec![
        arrow_schema::Field::new("id", arrow_schema::DataType::Utf8, false),
    ]));
    let ids = arrow_array::StringArray::from(vec!["not-binary"]);
    let rb = arrow_array::RecordBatch::try_new(schema, vec![std::sync::Arc::new(ids)]).unwrap();
    let mut store = InMemoryFactStore::new(facts_schema());
    store.insert(membrid::arrow::interop::Batch { batch: rb });
    assert!(store.is_empty());
}

#[test]
fn extract_id_takes_first_sixteen_bytes() {
    let raw: Vec<u8> = (0u8..20).collect();
    let id = extract_id(&raw).unwrap();
    assert_eq!(id.to_vec(), (0u8..16).collect::<Vec<u8>>());
    assert!(extract_id(&[1, 2, 3]).is_none());
}

#[test]
fn inserting_the_same_batch_twice_changes_nothing() {
    let mut store = InMemoryFactStore::new(facts_schema());
    let a = make_episode("first", ones());
    let b = make_episode("second", ones());
    let batch = episodes_to_record_batch(&[a, b], 768).unwrap();
    store.insert(membrid::arrow::interop::Batch { batch: batch.batch.clone() });
    let once = contents(&store);
    store.insert(batch);
    assert_eq!(store.len(), 2);
    assert_eq!(contents(&store), once);
}
