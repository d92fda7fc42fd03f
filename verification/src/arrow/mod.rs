//! Arrow schema definitions for the storage backends.
//!
//! This module is the single source of truth for all table schemas.
pub mod interop;
pub mod convert;

use std::sync::Arc;

use vstd::prelude::*;

use self::interop::{
    binary_field, field_parts, float32_field, float_list_field, int64_field, new_schema,
    schema_fields, uint32_field, uint64_field, utf8_field, utf8_list_field, ColumnType,
};

verus! {

/// Number of embedding dimensions. Matches nomic-embed-text-1.5 (768-dim).
/// Override via `facts_schema_with_dims()` for a different model.
pub const DEFAULT_EMBEDDING_DIMS: i32 = 768;

/// A field of a table: (name, column type, nullable).
pub type FieldSpec = (Seq<char>, ColumnType, bool);

/// The fields of `facts.lance`, in order, for embeddings of `dims` floats.
pub open spec fn facts_fields(dims: i32) -> Seq<FieldSpec> {
    seq![
        ("id"@, ColumnType::Binary, false),
        ("vector"@, ColumnType::FixedSizeFloat32List(dims), true),
        ("fact_kind"@, ColumnType::Utf8, false),
        ("session_id"@, ColumnType::Utf8, false),
        ("role"@, ColumnType::Utf8, true),
        ("content"@, ColumnType::Utf8, false),
        ("preview"@, ColumnType::Utf8, false),
        ("subject_id"@, ColumnType::Utf8, true),
        ("predicate"@, ColumnType::Utf8, true),
        ("object_id"@, ColumnType::Utf8, true),
        ("object_value"@, ColumnType::Utf8, true),
        ("confidence"@, ColumnType::Float32, true),
        ("valid_from"@, ColumnType::Int64, true),
        ("valid_until"@, ColumnType::Int64, true),
        ("timestamp_ms"@, ColumnType::Int64, false),
        ("topic_tags"@, ColumnType::Utf8List, false),
        ("entity_ids"@, ColumnType::Utf8List, false),
        ("ttl_expires_ms"@, ColumnType::UInt64, true),
    ]
}

/// The fields of `entities.lance`, in order, for embeddings of `dims` floats.
pub open spec fn entities_fields(dims: i32) -> Seq<FieldSpec> {
    seq![
        ("id"@, ColumnType::Utf8, false),
        ("label"@, ColumnType::Utf8, false),
        ("name"@, ColumnType::Utf8, false),
        ("aliases"@, ColumnType::Utf8List, false),
        ("attributes"@, ColumnType::Utf8, false),
        ("vector"@, ColumnType::FixedSizeFloat32List(dims), true),
        ("first_seen_ms"@, ColumnType::Int64, false),
        ("last_seen_ms"@, ColumnType::Int64, false),
        ("mention_count"@, ColumnType::UInt32, false),
    ]
}

/// The fields of an edge dataset, in order.
pub open spec fn edge_fields() -> Seq<FieldSpec> {
    seq![
        ("src_id"@, ColumnType::Utf8, false),
        ("dst_id"@, ColumnType::Utf8, false),
        ("weight"@, ColumnType::Float32, false),
        ("properties"@, ColumnType::Utf8, true),
    ]
}

/// Arrow schema for `facts.lance`.
/// Used for both episodes (fact_kind = "episode") and extracted SPO facts
/// (fact_kind = "extracted_fact").
pub fn facts_schema() -> (s: Arc<arrow_schema::Schema>)
    ensures
        schema_fields(*s) == facts_fields(DEFAULT_EMBEDDING_DIMS),
{
    facts_schema_with_dims(DEFAULT_EMBEDDING_DIMS)
}

pub fn facts_schema_with_dims(dims: i32) -> (s: Arc<arrow_schema::Schema>)
    ensures
        schema_fields(*s) == facts_fields(dims),
        schema_fields(*s).len() == 18,
        schema_fields(*s)[1] == ("vector"@, ColumnType::FixedSizeFloat32List(dims), true),
{
    let mut fields: Vec<arrow_schema::Field> = Vec::new();
    // Primary key: first 16 bytes of blake3(content + timestamp_ms)
    fields.push(binary_field("id", false));
    // Embedding vector; nullable: episodes not embedded yet are stored with null
    fields.push(float_list_field("vector", dims, true));
    // "episode" | "extracted_fact"
    fields.push(utf8_field("fact_kind", false));
    fields.push(utf8_field("session_id", false));
    // "user" | "assistant" | "system"; null for extracted_fact
    fields.push(utf8_field("role", true));
    fields.push(utf8_field("content", false));
    // First 256 chars of content
    fields.push(utf8_field("preview", false));
    // SPO fields (null for episodes)
    fields.push(utf8_field("subject_id", true));
    fields.push(utf8_field("predicate", true));
    fields.push(utf8_field("object_id", true));
    fields.push(utf8_field("object_value", true));
    fields.push(float32_field("confidence", true));
    // Bi-temporal validity (ms since epoch)
    fields.push(int64_field("valid_from", true));
    fields.push(int64_field("valid_until", true));
    // Creation timestamp (ms since epoch)
    fields.push(int64_field("timestamp_ms", false));
    fields.push(utf8_list_field("topic_tags", false));
    fields.push(utf8_list_field("entity_ids", false));
    // Expiry instant (ms since epoch); null = never expires. Applied as a
    // column predicate at query time.
    fields.push(uint64_field("ttl_expires_ms", true));
    assert(fields@.map_values(|f: arrow_schema::Field| field_parts(f)) =~= facts_fields(dims));
    proof {
        lemma_schema_vectors_have_dims(dims);
    }
    new_schema(fields)
}

pub fn entities_schema() -> (s: Arc<arrow_schema::Schema>)
    ensures
        schema_fields(*s) == entities_fields(DEFAULT_EMBEDDING_DIMS),
{
    entities_schema_with_dims(DEFAULT_EMBEDDING_DIMS)
}

pub fn entities_schema_with_dims(dims: i32) -> (s: Arc<arrow_schema::Schema>)
    ensures
        schema_fields(*s) == entities_fields(dims),
        schema_fields(*s).len() == 9,
        schema_fields(*s)[5] == ("vector"@, ColumnType::FixedSizeFloat32List(dims), true),
{
    let mut fields: Vec<arrow_schema::Field> = Vec::new();
    // "person:alice"
    fields.push(utf8_field("id", false));
    // POLE+O kind string
    fields.push(utf8_field("label", false));
    fields.push(utf8_field("name", false));
    fields.push(utf8_list_field("aliases", false));
    // JSON-encoded attributes
    fields.push(utf8_field("attributes", false));
    // Entity description embedding (for semantic entity search)
    fields.push(float_list_field("vector", dims, true));
    fields.push(int64_field("first_seen_ms", false));
    fields.push(int64_field("last_seen_ms", false));
    fields.push(uint32_field("mention_count", false));
    assert(fields@.map_values(|f: arrow_schema::Field| field_parts(f)) =~= entities_fields(dims));
    proof {
        lemma_schema_vectors_have_dims(dims);
    }
    new_schema(fields)
}

/// Arrow schema for edge datasets (RELATED_TO, CAUSES, CONTRADICTS, MENTIONED_WITH).
pub fn edge_schema() -> (s: Arc<arrow_schema::Schema>)
    ensures
        schema_fields(*s) == edge_fields(),
{
    let mut fields: Vec<arrow_schema::Field> = Vec::new();
    fields.push(utf8_field("src_id", false));
    fields.push(utf8_field("dst_id", false));
    fields.push(float32_field("weight", false));
    // JSON-encoded extra properties
    fields.push(utf8_field("properties", true));
    assert(fields@.map_values(|f: arrow_schema::Field| field_parts(f)) =~= edge_fields());
    new_schema(fields)
}

/// Whatever the embedding dimensions asked for, the `vector` field of the
/// facts and entities schemas is a nullable list of exactly that many
/// floats, and the schemas for two sizes differ in that field alone.
pub proof fn lemma_schema_vectors_have_dims(dims: i32)
    ensures
        facts_fields(dims).len() == 18,
        facts_fields(dims)[1] == ("vector"@, ColumnType::FixedSizeFloat32List(dims), true),
        entities_fields(dims).len() == 9,
        entities_fields(dims)[5] == ("vector"@, ColumnType::FixedSizeFloat32List(dims), true),
        forall|other: i32, i: int|
            0 <= i < 18 && i != 1 ==> #[trigger] facts_fields(other)[i] == facts_fields(dims)[i],
        forall|other: i32, i: int|
            0 <= i < 9 && i != 5 ==> #[trigger] entities_fields(other)[i] == entities_fields(dims)[i],
{
}

/// `name` is the name of one of `fields`.
pub open spec fn has_field(fields: Seq<FieldSpec>, name: Seq<char>) -> bool {
    exists|i: int| 0 <= i < fields.len() && (#[trigger] fields[i]).0 == name
}

/// Whatever the embedding dimensions, the facts schema holds the columns
/// every backend relies on.
pub proof fn lemma_facts_schema_has_required_fields(dims: i32)
    ensures
        has_field(facts_fields(dims), "id"@),
        has_field(facts_fields(dims), "vector"@),
        has_field(facts_fields(dims), "fact_kind"@),
        has_field(facts_fields(dims), "session_id"@),
        has_field(facts_fields(dims), "content"@),
        has_field(facts_fields(dims), "timestamp_ms"@),
        has_field(facts_fields(dims), "ttl_expires_ms"@),
{
    let f = facts_fields(dims);
    assert(f[0].0 == "id"@);
    assert(f[1].0 == "vector"@);
    assert(f[2].0 == "fact_kind"@);
    assert(f[3].0 == "session_id"@);
    assert(f[5].0 == "content"@);
    assert(f[14].0 == "timestamp_ms"@);
    assert(f[17].0 == "ttl_expires_ms"@);
}

/// Whatever the embedding dimensions, the entities schema holds the
/// columns of an entity's identity.
pub proof fn lemma_entities_schema_has_required_fields(dims: i32)
    ensures
        has_field(entities_fields(dims), "id"@),
        has_field(entities_fields(dims), "label"@),
        has_field(entities_fields(dims), "name"@),
        has_field(entities_fields(dims), "aliases"@),
{
    let f = entities_fields(dims);
    assert(f[0].0 == "id"@);
    assert(f[1].0 == "label"@);
    assert(f[2].0 == "name"@);
    assert(f[3].0 == "aliases"@);
}

/// The field names of the facts schema are distinct, so a column read by
/// name is the column built for that field.
pub proof fn lemma_facts_field_names_distinct(dims: i32)
    ensures
        forall|i: int, j: int|
            0 <= j < i < facts_fields(dims).len() ==> #[trigger] facts_fields(dims)[j].0
                != #[trigger] facts_fields(dims)[i].0,
{
    let f = facts_fields(dims);
    reveal_strlit("id");
    reveal_strlit("vector");
    reveal_strlit("fact_kind");
    reveal_strlit("session_id");
    reveal_strlit("role");
    reveal_strlit("content");
    reveal_strlit("preview");
    reveal_strlit("subject_id");
    reveal_strlit("predicate");
    reveal_strlit("object_id");
    reveal_strlit("object_value");
    reveal_strlit("confidence");
    reveal_strlit("valid_from");
    reveal_strlit("valid_until");
    reveal_strlit("timestamp_ms");
    reveal_strlit("topic_tags");
    reveal_strlit("entity_ids");
    reveal_strlit("ttl_expires_ms");
    // Each name is told apart from the others by its length and first two
    // characters.
    let key = |k: int| (f[k].0.len(), f[k].0[0], f[k].0[1]);
    assert(key(0) == (2nat, 'i', 'd'));
    assert(key(1) == (6nat, 'v', 'e'));
    assert(key(2) == (9nat, 'f', 'a'));
    assert(key(3) == (10nat, 's', 'e'));
    assert(key(4) == (4nat, 'r', 'o'));
    assert(key(5) == (7nat, 'c', 'o'));
    assert(key(6) == (7nat, 'p', 'r'));
    assert(key(7) == (10nat, 's', 'u'));
    assert(key(8) == (9nat, 'p', 'r'));
    assert(key(9) == (9nat, 'o', 'b'));
    assert(key(10) == (12nat, 'o', 'b'));
    assert(key(11) == (10nat, 'c', 'o'));
    assert(key(12) == (10nat, 'v', 'a'));
    assert(key(13) == (11nat, 'v', 'a'));
    assert(key(14) == (12nat, 't', 'i'));
    assert(key(15) == (10nat, 't', 'o'));
    assert(key(16) == (10nat, 'e', 'n'));
    assert(key(17) == (14nat, 't', 't'));
    assert forall|i: int, j: int| 0 <= j < i < f.len() implies f[j].0 != f[i].0 by {
        assert(0 <= i < 18 && 0 <= j < 18);
        assert(key(i) != key(j));
    }
}

} // verus!
