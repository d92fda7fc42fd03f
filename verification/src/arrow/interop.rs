//! The Arrow values that the library builds and reads, and the trusted
//! calls into the `arrow` crates that build and read them.
//!
//! Arrow values are opaque to the verifier: what the library relies on is
//! stated over the names below, each the content of an Arrow value.
use std::sync::Arc;

use vstd::prelude::*;
use vstd::utf8::encode_utf8;

verus! {

#[verifier::external_type_specification]
#[verifier::external_body]
pub struct ExField(arrow_schema::Field);

#[verifier::external_type_specification]
#[verifier::external_body]
pub struct ExSchema(arrow_schema::Schema);

#[verifier::external_type_specification]
#[verifier::external_body]
pub struct ExFixedSizeListArray(arrow_array::FixedSizeListArray);

// ---------------------------------------------------------------------------
// Schemas
// ---------------------------------------------------------------------------

/// The column types of the library's tables.
#[derive(Debug, Clone, Copy, PartialEq, Eq, Structural)]
pub enum ColumnType {
    Binary,
    Utf8,
    Int64,
    UInt32,
    UInt64,
    Float32,
    /// Fixed-size list of nullable 32-bit floats, of the given size.
    FixedSizeFloat32List(i32),
    /// Variable-size list of nullable UTF-8 strings.
    Utf8List,
    /// Any type that the library does not build.
    Other,
}

/// The name, column type (`Other` for a type the library does not build)
/// and nullability of an Arrow field.
pub uninterp spec fn field_parts(f: arrow_schema::Field) -> (Seq<char>, ColumnType, bool);

/// The fields of an Arrow schema, in order, as (name, column type, nullable).
pub uninterp spec fn schema_fields(s: arrow_schema::Schema) -> Seq<(Seq<char>, ColumnType, bool)>;

/// `Field::new` with `DataType::Binary`.
#[verifier::external_body]
pub(crate) fn binary_field(name: &str, nullable: bool) -> (f: arrow_schema::Field)
    ensures
        field_parts(f) == (name@, ColumnType::Binary, nullable),
{
    arrow_schema::Field::new(name, arrow_schema::DataType::Binary, nullable)
}

/// `Field::new` with `DataType::Utf8`.
#[verifier::external_body]
pub(crate) fn utf8_field(name: &str, nullable: bool) -> (f: arrow_schema::Field)
    ensures
        field_parts(f) == (name@, ColumnType::Utf8, nullable),
{
    arrow_schema::Field::new(name, arrow_schema::DataType::Utf8, nullable)
}

/// `Field::new` with `DataType::Int64`.
#[verifier::external_body]
pub(crate) fn int64_field(name: &str, nullable: bool) -> (f: arrow_schema::Field)
    ensures
        field_parts(f) == (name@, ColumnType::Int64, nullable),
{
    arrow_schema::Field::new(name, arrow_schema::DataType::Int64, nullable)
}

/// `Field::new` with `DataType::UInt32`.
#[verifier::external_body]
pub(crate) fn uint32_field(name: &str, nullable: bool) -> (f: arrow_schema::Field)
    ensures
        field_parts(f) == (name@, ColumnType::UInt32, nullable),
{
    arrow_schema::Field::new(name, arrow_schema::DataType::UInt32, nullable)
}

/// `Field::new` with `DataType::UInt64`.
#[verifier::external_body]
pub(crate) fn uint64_field(name: &str, nullable: bool) -> (f: arrow_schema::Field)
    ensures
        field_parts(f) == (name@, ColumnType::UInt64, nullable),
{
    arrow_schema::Field::new(name, arrow_schema::DataType::UInt64, nullable)
}

/// `Field::new` with `DataType::Float32`.
#[verifier::external_body]
pub(crate) fn float32_field(name: &str, nullable: bool) -> (f: arrow_schema::Field)
    ensures
        field_parts(f) == (name@, ColumnType::Float32, nullable),
{
    arrow_schema::Field::new(name, arrow_schema::DataType::Float32, nullable)
}

/// `Field::new` with `DataType::FixedSizeList` of `size` items, each a
/// nullable `Float32` under Arrow's default list item field.
#[verifier::external_body]
pub(crate) fn float_list_field(name: &str, size: i32, nullable: bool) -> (f: arrow_schema::Field)
    ensures
        field_parts(f) == (name@, ColumnType::FixedSizeFloat32List(size), nullable),
{
    let item = arrow_schema::Field::new_list_field(arrow_schema::DataType::Float32, true);
    arrow_schema::Field::new(name, arrow_schema::DataType::FixedSizeList(Arc::new(item), size), nullable)
}

/// `Field::new` with `DataType::List` of nullable `Utf8` items under Arrow's
/// default list item field.
#[verifier::external_body]
pub(crate) fn utf8_list_field(name: &str, nullable: bool) -> (f: arrow_schema::Field)
    ensures
        field_parts(f) == (name@, ColumnType::Utf8List, nullable),
{
    let item = arrow_schema::Field::new_list_field(arrow_schema::DataType::Utf8, true);
    arrow_schema::Field::new(name, arrow_schema::DataType::List(Arc::new(item)), nullable)
}

/// `Schema::new`, shared behind an `Arc`: a schema of the given fields, in order.
#[verifier::external_body]
pub(crate) fn new_schema(fields: Vec<arrow_schema::Field>) -> (s: Arc<arrow_schema::Schema>)
    ensures
        schema_fields(*s) == fields@.map_values(|f: arrow_schema::Field| field_parts(f)),
{
    Arc::new(arrow_schema::Schema::new(fields))
}

// ---------------------------------------------------------------------------
// Float arrays, held as IEEE-754 binary32 bit patterns
// ---------------------------------------------------------------------------

/// The rows of a fixed-size list array of floats: `None` for a null row,
/// else the bit patterns of its values.
pub uninterp spec fn float_list_rows(a: arrow_array::FixedSizeListArray) -> Seq<Option<Seq<u32>>>;

/// The rows of a fixed-size list of `size` items over `values`, a row being
/// null where `validity` holds `false`.
pub open spec fn chunked_rows(values: Seq<u32>, size: nat, validity: Option<Seq<bool>>) -> Seq<Option<Seq<u32>>>
    recommends
        size > 0,
{
    Seq::new(
        values.len() / size,
        |i: int|
            if validity matches Some(v) && !v[i] {
                None
            } else {
                Some(values.subrange(i * size, i * size + size))
            },
    )
}

/// The rows of a fixed-size list of no items per row: one row per entry of
/// the validity bitmap (none without one), empty or null.
pub open spec fn empty_rows(validity: Option<Seq<bool>>) -> Seq<Option<Seq<u32>>> {
    match validity {
        Some(v) => Seq::new(v.len(), |i: int| if v[i] { Some(Seq::empty()) } else { None }),
        None => Seq::empty(),
    }
}

/// The array is a fixed-size list whose items are nullable 32-bit floats
/// under Arrow's default list item field.
pub uninterp spec fn is_float32_list(a: arrow_array::FixedSizeListArray) -> bool;

/// `FixedSizeListArray::try_new` with Arrow's default nullable `Float32`
/// item field, `size` items per row over a `Float32Array` whose buffer holds
/// `bits` (each read as the IEEE-754 binary32 value with that bit pattern),
/// and an optional validity bitmap. It succeeds when `size` is positive,
/// divides the number of values, and the bitmap (if any) has one entry per
/// row; or when `size` is 0 and there are no values, the rows then being
/// one per bitmap entry.
#[verifier::external_body]
pub(crate) fn float_list_try_new(size: i32, bits: Vec<u32>, validity: Option<Vec<bool>>) -> (r: Result<
    arrow_array::FixedSizeListArray,
    arrow_schema::ArrowError,
>)
    ensures
        (size > 0 && bits@.len() % (size as nat) == 0 && (validity matches Some(v) ==> v@.len()
            * size == bits@.len())) ==> r is Ok,
        (size == 0 && bits@.len() == 0) ==> r is Ok,
        size < 0 ==> r is Err,
        r matches Ok(a) ==> is_float32_list(a),
        r matches Ok(a) ==> float_list_size(a) == size,
        r matches Ok(a) ==> float_list_values(a) == bits@,
        r matches Ok(a) ==> float_list_nulls(a) == match validity {
            Some(v) => Some(v@),
            None => None,
        },
        r matches Ok(a) ==> size > 0 ==> float_list_rows(a) == chunked_rows(
            bits@,
            size as nat,
            match validity {
                Some(v) => Some(v@),
                None => None,
            },
        ),
        r matches Ok(a) ==> size == 0 ==> float_list_rows(a) == empty_rows(
            match validity {
                Some(v) => Some(v@),
                None => None,
            },
        ),
{
    let values = arrow_array::Float32Array::new(arrow_buffer::Buffer::from_vec(bits).into(), None);
    let item = arrow_schema::Field::new_list_field(arrow_schema::DataType::Float32, true);
    let nulls = validity.map(arrow_buffer::NullBuffer::from);
    arrow_array::FixedSizeListArray::try_new(Arc::new(item), size, Arc::new(values), nulls)
}


/// The number of values in each row of a fixed-size list array.
pub uninterp spec fn float_list_size(a: arrow_array::FixedSizeListArray) -> i32;

/// The bit patterns of the child values of a fixed-size list array of
/// floats, all rows in turn (those under null rows included).
pub uninterp spec fn float_list_values(a: arrow_array::FixedSizeListArray) -> Seq<u32>;

/// The validity bitmap of a fixed-size list array (`true` for a valid row),
/// `None` when the array carries no null buffer.
pub uninterp spec fn float_list_nulls(a: arrow_array::FixedSizeListArray) -> Option<Seq<bool>>;

// ---------------------------------------------------------------------------
// Record batches
// ---------------------------------------------------------------------------

/// A record batch: equal-length columns under a schema. The verifier cannot
/// be told the Arrow record batch type itself (its column type is a trait
/// object), so the library holds it here and states its contents over
/// `batch_num_rows`, `batch_column` and `batch_schema`: every record batch
/// is described, a column of a type the library does not read as
/// `ColumnContent::Other` with its length.
#[verifier::external_body]
pub struct Batch {
    pub batch: arrow_array::RecordBatch,
}

/// Columns being gathered for a record batch, in order.
#[verifier::external_body]
pub struct ColumnSet {
    columns: Vec<arrow_array::ArrayRef>,
}

/// What an Arrow column holds, row by row (`None` for a null cell).
pub enum ColumnContent {
    Binary(Seq<Option<Seq<u8>>>),
    Utf8(Seq<Option<Seq<char>>>),
    Int64(Seq<Option<i64>>),
    UInt64(Seq<Option<u64>>),
    /// IEEE-754 binary32 bit patterns.
    Float32(Seq<Option<u32>>),
    /// `FixedSizeFloat32List` of the given size: each row's bit patterns.
    FloatList(i32, Seq<Option<Seq<u32>>>),
    /// `Utf8List`: each row's strings.
    Utf8List(Seq<Seq<Seq<char>>>),
    /// A column of any other type, of the given number of rows.
    Other(nat),
}

/// The number of rows of a column.
pub open spec fn column_len(c: ColumnContent) -> nat {
    match c {
        ColumnContent::Binary(v) => v.len(),
        ColumnContent::Utf8(v) => v.len(),
        ColumnContent::Int64(v) => v.len(),
        ColumnContent::UInt64(v) => v.len(),
        ColumnContent::Float32(v) => v.len(),
        ColumnContent::FloatList(_, v) => v.len(),
        ColumnContent::Utf8List(v) => v.len(),
        ColumnContent::Other(n) => n,
    }
}

/// The type of a column, `None` for a type the library does not build.
pub open spec fn column_type(c: ColumnContent) -> Option<ColumnType> {
    match c {
        ColumnContent::Binary(_) => Some(ColumnType::Binary),
        ColumnContent::Utf8(_) => Some(ColumnType::Utf8),
        ColumnContent::Int64(_) => Some(ColumnType::Int64),
        ColumnContent::UInt64(_) => Some(ColumnType::UInt64),
        ColumnContent::Float32(_) => Some(ColumnType::Float32),
        ColumnContent::FloatList(n, _) => Some(ColumnType::FixedSizeFloat32List(n)),
        ColumnContent::Utf8List(_) => Some(ColumnType::Utf8List),
        ColumnContent::Other(_) => None,
    }
}

/// A column has a null cell.
pub open spec fn column_has_nulls(c: ColumnContent) -> bool {
    match c {
        ColumnContent::Binary(v) => exists|i: int| 0 <= i < v.len() && v[i] is None,
        ColumnContent::Utf8(v) => exists|i: int| 0 <= i < v.len() && v[i] is None,
        ColumnContent::Int64(v) => exists|i: int| 0 <= i < v.len() && v[i] is None,
        ColumnContent::UInt64(v) => exists|i: int| 0 <= i < v.len() && v[i] is None,
        ColumnContent::Float32(v) => exists|i: int| 0 <= i < v.len() && v[i] is None,
        ColumnContent::FloatList(_, v) => exists|i: int| 0 <= i < v.len() && v[i] is None,
        ColumnContent::Utf8List(_) => false,
        ColumnContent::Other(_) => true,
    }
}

/// The rows `offset .. offset + length` of a column.
pub open spec fn column_slice(c: ColumnContent, offset: int, length: int) -> ColumnContent {
    match c {
        ColumnContent::Binary(v) => ColumnContent::Binary(v.subrange(offset, offset + length)),
        ColumnContent::Utf8(v) => ColumnContent::Utf8(v.subrange(offset, offset + length)),
        ColumnContent::Int64(v) => ColumnContent::Int64(v.subrange(offset, offset + length)),
        ColumnContent::UInt64(v) => ColumnContent::UInt64(v.subrange(offset, offset + length)),
        ColumnContent::Float32(v) => ColumnContent::Float32(v.subrange(offset, offset + length)),
        ColumnContent::FloatList(n, v) => ColumnContent::FloatList(n, v.subrange(offset, offset + length)),
        ColumnContent::Utf8List(v) => ColumnContent::Utf8List(v.subrange(offset, offset + length)),
        ColumnContent::Other(_) => ColumnContent::Other(length as nat),
    }
}

/// The kind under which the library reads a column.
pub open spec fn column_kind_of(c: ColumnContent) -> ColumnKind {
    match c {
        ColumnContent::Binary(_) => ColumnKind::Binary,
        ColumnContent::Utf8(_) => ColumnKind::Utf8,
        ColumnContent::Int64(_) => ColumnKind::Int64,
        _ => ColumnKind::Other,
    }
}

/// The kinds of column that the library reads from a record batch.
#[derive(Debug, Clone, Copy, PartialEq, Eq, Structural)]
pub enum ColumnKind {
    Binary,
    Utf8,
    Int64,
    Other,
}

/// The cell at `row` of the binary column named `name`; `None` when null
/// or when there is no such cell.
pub open spec fn binary_cell(b: Batch, name: Seq<char>, row: int) -> Option<Seq<u8>> {
    match batch_column(b, name) {
        Some(ColumnContent::Binary(c)) => if 0 <= row < c.len() { c[row] } else { None },
        _ => None,
    }
}

/// The cell at `row` of the UTF-8 column named `name`; `None` when null or
/// when there is no such cell.
pub open spec fn utf8_cell(b: Batch, name: Seq<char>, row: int) -> Option<Seq<char>> {
    match batch_column(b, name) {
        Some(ColumnContent::Utf8(c)) => if 0 <= row < c.len() { c[row] } else { None },
        _ => None,
    }
}

/// The cell at `row` of the 64-bit integer column named `name`; `None` when
/// null or when there is no such cell.
pub open spec fn int64_cell(b: Batch, name: Seq<char>, row: int) -> Option<i64> {
    match batch_column(b, name) {
        Some(ColumnContent::Int64(c)) => if 0 <= row < c.len() { c[row] } else { None },
        _ => None,
    }
}

/// The number of rows of a record batch.
pub uninterp spec fn batch_num_rows(b: Batch) -> nat;

/// The first column named `name` of a record batch, if any.
pub uninterp spec fn batch_column(b: Batch, name: Seq<char>) -> Option<ColumnContent>;

/// The fields of the schema of a record batch, in order, as (name, column
/// type, nullable).
pub uninterp spec fn batch_schema(b: Batch) -> Seq<(Seq<char>, ColumnType, bool)>;

/// The bytes held at `row` of the binary column named `name` of a record
/// batch (for a null cell, whatever bytes its slot spans).
pub uninterp spec fn binary_slot(b: Batch, name: Seq<char>, row: int) -> Seq<u8>;

/// The text held at `row` of the UTF-8 column named `name` of a record
/// batch (for a null cell, whatever text its slot spans).
pub uninterp spec fn utf8_slot(b: Batch, name: Seq<char>, row: int) -> Seq<char>;

/// The value held at `row` of the 64-bit integer column named `name` of a
/// record batch (for a null cell, whatever its slot holds).
pub uninterp spec fn int64_slot(b: Batch, name: Seq<char>, row: int) -> i64;

/// The record batch of the `length` rows of `b` from `offset` on.
pub uninterp spec fn batch_slice(b: Batch, offset: nat, length: nat) -> Batch;

/// The number of bytes of the UTF-8 encodings of `texts`, together.
pub open spec fn utf8_bytes(texts: Seq<Seq<char>>) -> int
    decreases texts.len(),
{
    if texts.len() == 0 {
        0
    } else {
        utf8_bytes(texts.drop_last()) + encode_utf8(texts.last()).len()
    }
}

/// The columns gathered so far, in order.
pub uninterp spec fn column_set(s: ColumnSet) -> Seq<ColumnContent>;

/// A new, empty set of columns.
#[verifier::external_body]
pub(crate) fn new_column_set() -> (s: ColumnSet)
    ensures
        column_set(s) == Seq::<ColumnContent>::empty(),
{
    ColumnSet { columns: Vec::new() }
}

/// `BinaryArray::from_iter_values`: a binary column of the given ids. Its
/// 32-bit offsets must reach the end of their 16 bytes each.
#[verifier::external_body]
pub(crate) fn push_binary_ids(set: &mut ColumnSet, ids: &Vec<[u8; 16]>)
    requires
        ids@.len() * 16 <= i32::MAX,
    ensures
        column_set(*final(set)) == column_set(*old(set)).push(
            ColumnContent::Binary(ids@.map_values(|id: [u8; 16]| Some(id@))),
        ),
{
    set.columns.push(Arc::new(arrow_array::BinaryArray::from_iter_values(ids.iter())));
}

/// `StringArray::from`: a UTF-8 column of the given strings. Its 32-bit
/// offsets must reach the end of their bytes.
#[verifier::external_body]
pub(crate) fn push_utf8(set: &mut ColumnSet, values: Vec<String>)
    requires
        utf8_bytes(values@.map_values(|s: String| s@)) <= i32::MAX,
    ensures
        column_set(*final(set)) == column_set(*old(set)).push(
            ColumnContent::Utf8(values@.map_values(|s: String| Some(s@))),
        ),
{
    set.columns.push(Arc::new(arrow_array::StringArray::from(values)));
}

/// `StringArray::new_null`: a UTF-8 column of `n` nulls.
#[verifier::external_body]
pub(crate) fn push_null_utf8(set: &mut ColumnSet, n: usize)
    ensures
        column_set(*final(set)) == column_set(*old(set)).push(
            ColumnContent::Utf8(Seq::new(n as nat, |i: int| None)),
        ),
{
    set.columns.push(Arc::new(arrow_array::StringArray::new_null(n)));
}

/// `Int64Array::from`: a 64-bit integer column of the given values.
#[verifier::external_body]
pub(crate) fn push_int64(set: &mut ColumnSet, values: Vec<i64>)
    ensures
        column_set(*final(set)) == column_set(*old(set)).push(
            ColumnContent::Int64(values@.map_values(|v: i64| Some(v))),
        ),
{
    set.columns.push(Arc::new(arrow_array::Int64Array::from(values)));
}

/// `Int64Array::new_null`: a 64-bit integer column of `n` nulls.
#[verifier::external_body]
pub(crate) fn push_null_int64(set: &mut ColumnSet, n: usize)
    ensures
        column_set(*final(set)) == column_set(*old(set)).push(
            ColumnContent::Int64(Seq::new(n as nat, |i: int| None)),
        ),
{
    set.columns.push(Arc::new(arrow_array::Int64Array::new_null(n)));
}

/// `UInt64Array::from`: a 64-bit unsigned integer column of the given
/// values, null where a value is `None`.
#[verifier::external_body]
pub(crate) fn push_opt_uint64(set: &mut ColumnSet, values: Vec<Option<u64>>)
    ensures
        column_set(*final(set)) == column_set(*old(set)).push(ColumnContent::UInt64(values@)),
{
    set.columns.push(Arc::new(arrow_array::UInt64Array::from(values)));
}

/// `Float32Array::new_null`: a 32-bit float column of `n` nulls.
#[verifier::external_body]
pub(crate) fn push_null_float32(set: &mut ColumnSet, n: usize)
    ensures
        column_set(*final(set)) == column_set(*old(set)).push(
            ColumnContent::Float32(Seq::new(n as nat, |i: int| None)),
        ),
{
    set.columns.push(Arc::new(arrow_array::Float32Array::new_null(n)));
}

/// Adds a fixed-size list array of floats as the next column.
#[verifier::external_body]
pub(crate) fn push_float_list(set: &mut ColumnSet, list: arrow_array::FixedSizeListArray)
    requires
        is_float32_list(list),
    ensures
        column_set(*final(set)) == column_set(*old(set)).push(
            ColumnContent::FloatList(float_list_size(list), float_list_rows(list)),
        ),
{
    set.columns.push(Arc::new(list));
}

/// The sum of `lengths`.
pub open spec fn total_len(lengths: Seq<usize>) -> int
    decreases lengths.len(),
{
    if lengths.len() == 0 {
        0
    } else {
        total_len(lengths.drop_last()) + lengths.last()
    }
}

/// The rows of a list column whose `j`-th row holds the next `lengths[j]`
/// of `values`.
pub open spec fn list_rows(values: Seq<Seq<char>>, lengths: Seq<usize>) -> Seq<Seq<Seq<char>>>
    decreases lengths.len(),
{
    if lengths.len() == 0 {
        Seq::empty()
    } else {
        list_rows(values, lengths.drop_last()).push(
            values.subrange(total_len(lengths.drop_last()), total_len(lengths)),
        )
    }
}

/// `ListArray::new` with Arrow's default nullable `Utf8` item field, offsets
/// `OffsetBuffer::from_lengths(lengths)` over the strings `values`: a list
/// column whose `j`-th row holds the next `lengths[j]` strings. The 32-bit
/// offsets of the lists must reach their last string, and those of the
/// strings the end of their bytes.
#[verifier::external_body]
pub(crate) fn push_utf8_lists(set: &mut ColumnSet, lengths: Vec<usize>, values: Vec<String>)
    requires
        total_len(lengths@) == values@.len(),
        total_len(lengths@) <= i32::MAX,
        utf8_bytes(values@.map_values(|s: String| s@)) <= i32::MAX,
    ensures
        column_set(*final(set)) == column_set(*old(set)).push(
            ColumnContent::Utf8List(list_rows(values@.map_values(|s: String| s@), lengths@)),
        ),
{
    let item = arrow_schema::Field::new_list_field(arrow_schema::DataType::Utf8, true);
    let offsets = arrow_buffer::OffsetBuffer::from_lengths(lengths);
    let strings = arrow_array::StringArray::from(values);
    set.columns.push(Arc::new(arrow_array::ListArray::new(Arc::new(item), offsets, Arc::new(strings), None)));
}

/// The columns of `set` fit the schema fields `fields`: one column per
/// field, all of one length, each of its field's type, and without nulls
/// where its field is not nullable.
pub open spec fn columns_fit(fields: Seq<(Seq<char>, ColumnType, bool)>, set: Seq<ColumnContent>) -> bool {
    &&& set.len() == fields.len()
    &&& set.len() > 0
    &&& forall|i: int| 0 <= i < set.len() ==> column_len(#[trigger] set[i]) == column_len(set[0])
    &&& forall|i: int|
        0 <= i < set.len() ==> column_type(#[trigger] set[i]) == Some(fields[i].1) && (!fields[i].2
            ==> !column_has_nulls(set[i]))
}

/// `RecordBatch::try_new`: it succeeds when the columns fit the schema; the
/// batch then has that schema and the columns' rows, and the column under each field's name (the
/// first field with that name) is that field's column.
#[verifier::external_body]
pub(crate) fn batch_try_new(schema: Arc<arrow_schema::Schema>, set: ColumnSet) -> (r: Result<
    Batch,
    arrow_schema::ArrowError,
>)
    ensures
        columns_fit(schema_fields(*schema), column_set(set)) ==> r is Ok,
        r matches Ok(b) ==> {
            let fields = schema_fields(*schema);
            let cols = column_set(set);
            &&& cols.len() == fields.len()
            &&& batch_schema(b) == fields
            &&& forall|i: int| 0 <= i < cols.len() ==> column_len(#[trigger] cols[i]) == batch_num_rows(b)
            &&& forall|i: int|
                #![trigger fields[i]]
                0 <= i < fields.len() && (forall|j: int| 0 <= j < i ==> fields[j].0 != fields[i].0)
                    ==> batch_column(b, fields[i].0) == Some(cols[i])
        },
{
    arrow_array::RecordBatch::try_new(schema, set.columns).map(|batch| Batch { batch })
}

// ---------------------------------------------------------------------------
// Reading record batches
// ---------------------------------------------------------------------------

/// `RecordBatch::num_rows`; every column of a record batch has that many rows.
#[verifier::external_body]
pub(crate) fn num_rows(b: &Batch) -> (n: usize)
    ensures
        n == batch_num_rows(*b),
        forall|name: Seq<char>|
            #[trigger] batch_column(*b, name) matches Some(c) ==> column_len(c) == n,
{
    b.batch.num_rows()
}

/// `RecordBatch::column_by_name`, then the kind of the column found.
#[verifier::external_body]
pub(crate) fn column_kind(b: &Batch, name: &str) -> (k: Option<ColumnKind>)
    ensures
        match batch_column(*b, name@) {
            None => k is None,
            Some(c) => k == Some(column_kind_of(c)),
        },
{
    match b.batch.column_by_name(name).map(|c| c.data_type()) {
        None => None,
        Some(arrow_schema::DataType::Binary) => Some(ColumnKind::Binary),
        Some(arrow_schema::DataType::Utf8) => Some(ColumnKind::Utf8),
        Some(arrow_schema::DataType::Int64) => Some(ColumnKind::Int64),
        Some(_) => Some(ColumnKind::Other),
    }
}

/// `BinaryArray::value` of the column named `name`, at `row`: the bytes of
/// its slot, which are the cell's bytes when it is not null.
#[verifier::external_body]
pub(crate) fn binary_value(b: &Batch, name: &str, row: usize) -> (v: Vec<u8>)
    requires
        batch_column(*b, name@) matches Some(ColumnContent::Binary(c)) && row < c.len(),
    ensures
        v@ == binary_slot(*b, name@, row as int),
        binary_cell(*b, name@, row as int) is Some ==> v@ == binary_cell(*b, name@, row as int)->0,
{
    let c = b.batch.column_by_name(name).unwrap();
    c.as_any().downcast_ref::<arrow_array::BinaryArray>().unwrap().value(row).to_vec()
}

/// `StringArray::value` of the column named `name`, at `row`: the text of
/// its slot, which is the cell's text when it is not null.
#[verifier::external_body]
pub(crate) fn utf8_value(b: &Batch, name: &str, row: usize) -> (v: String)
    requires
        batch_column(*b, name@) matches Some(ColumnContent::Utf8(c)) && row < c.len(),
    ensures
        v@ == utf8_slot(*b, name@, row as int),
        utf8_cell(*b, name@, row as int) is Some ==> v@ == utf8_cell(*b, name@, row as int)->0,
{
    let c = b.batch.column_by_name(name).unwrap();
    c.as_any().downcast_ref::<arrow_array::StringArray>().unwrap().value(row).to_owned()
}

/// `Int64Array::value` of the column named `name`, at `row`: the value in
/// its slot, which is the cell's value when it is not null.
#[verifier::external_body]
pub(crate) fn int64_value(b: &Batch, name: &str, row: usize) -> (v: i64)
    requires
        batch_column(*b, name@) matches Some(ColumnContent::Int64(c)) && row < c.len(),
    ensures
        v == int64_slot(*b, name@, row as int),
        int64_cell(*b, name@, row as int) is Some ==> v == int64_cell(*b, name@, row as int)->0,
{
    let c = b.batch.column_by_name(name).unwrap();
    c.as_any().downcast_ref::<arrow_array::Int64Array>().unwrap().value(row)
}

/// `RecordBatch::slice`: the `length` rows from `offset` on, under the same
/// schema and columns.
#[verifier::external_body]
pub(crate) fn slice_rows(b: &Batch, offset: usize, length: usize) -> (s: Batch)
    requires
        offset + length <= batch_num_rows(*b),
    ensures
        s == batch_slice(*b, offset as nat, length as nat),
        batch_num_rows(s) == length,
        batch_schema(s) == batch_schema(*b),
        forall|name: Seq<char>|
            #[trigger] batch_column(s, name) == match batch_column(*b, name) {
                Some(c) => Some(column_slice(c, offset as int, length as int)),
                None => None,
            },
{
    Batch { batch: b.batch.slice(offset, length) }
}

} // verus!
