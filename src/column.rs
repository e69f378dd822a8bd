use vstd::prelude::*;

use crate::error::{EngineError, ErrorKind};
use crate::schema::{DataType, Schema};

verus! {

/// A single value as seen by contracts. Floating-point values are held by
/// their IEEE-754 bit pattern.
pub enum Datum {
    Boolean(bool),
    Int32(i32),
    Int64(i64),
    Float32(u32),
    Float64(u64),
    Utf8(Seq<char>),
}

/// The type tag of a value.
pub open spec fn datum_type(d: Datum) -> DataType {
    match d {
        Datum::Boolean(_) => DataType::Boolean,
        Datum::Int32(_) => DataType::Int32,
        Datum::Int64(_) => DataType::Int64,
        Datum::Float32(_) => DataType::Float32,
        Datum::Float64(_) => DataType::Float64,
        Datum::Utf8(_) => DataType::Utf8,
    }
}

/// A dynamically typed single value, as read out of a column.
#[derive(Debug, PartialEq, Eq, Hash, PartialOrd, Ord)]
pub enum ScalarValue {
    Boolean(bool),
    Int32(i32),
    Int64(i64),
    Float32(u32),
    Float64(u64),
    String(String),
}

impl View for ScalarValue {
    type V = Datum;

    open spec fn view(&self) -> Datum {
        match self {
            ScalarValue::Boolean(b) => Datum::Boolean(*b),
            ScalarValue::Int32(v) => Datum::Int32(*v),
            ScalarValue::Int64(v) => Datum::Int64(*v),
            ScalarValue::Float32(v) => Datum::Float32(*v),
            ScalarValue::Float64(v) => Datum::Float64(*v),
            ScalarValue::String(s) => Datum::Utf8(s@),
        }
    }
}

impl Clone for ScalarValue {
    fn clone(&self) -> (r: Self)
        ensures
            r == *self,
    {
        match self {
            ScalarValue::Boolean(b) => ScalarValue::Boolean(*b),
            ScalarValue::Int32(v) => ScalarValue::Int32(*v),
            ScalarValue::Int64(v) => ScalarValue::Int64(*v),
            ScalarValue::Float32(v) => ScalarValue::Float32(*v),
            ScalarValue::Float64(v) => ScalarValue::Float64(*v),
            ScalarValue::String(s) => ScalarValue::String(s.clone()),
        }
    }
}

impl ScalarValue {
    /// Compares two values by their views.
    pub fn same_as(&self, other: &ScalarValue) -> (r: bool)
        ensures
            r == (self@ == other@),
    {
        match (self, other) {
            (ScalarValue::Boolean(a), ScalarValue::Boolean(b)) => *a == *b,
            (ScalarValue::Int32(a), ScalarValue::Int32(b)) => *a == *b,
            (ScalarValue::Int64(a), ScalarValue::Int64(b)) => *a == *b,
            (ScalarValue::Float32(a), ScalarValue::Float32(b)) => *a == *b,
            (ScalarValue::Float64(a), ScalarValue::Float64(b)) => *a == *b,
            (ScalarValue::String(a), ScalarValue::String(b)) => *a == *b,
            _ => false,
        }
    }

    pub fn get_type(&self) -> (r: DataType)
        ensures
            r == datum_type(self@),
    {
        match self {
            ScalarValue::Boolean(_) => DataType::Boolean,
            ScalarValue::Int32(_) => DataType::Int32,
            ScalarValue::Int64(_) => DataType::Int64,
            ScalarValue::Float32(_) => DataType::Float32,
            ScalarValue::Float64(_) => DataType::Float64,
            ScalarValue::String(_) => DataType::Utf8,
        }
    }
}

/// The rows of `s` whose entry in `mask` is true, kept in sequence.
pub open spec fn filter_seq<A>(s: Seq<A>, mask: Seq<bool>) -> Seq<A>
    decreases s.len(),
{
    if s.len() == 0 || mask.len() == 0 {
        Seq::empty()
    } else {
        let rest = filter_seq(s.drop_last(), mask.drop_last());
        if mask.last() {
            rest.push(s.last())
        } else {
            rest
        }
    }
}

/// Filtering commutes with mapping each element.
pub proof fn lemma_filter_map<A, B>(s: Seq<A>, mask: Seq<bool>, f: spec_fn(A) -> B)
    requires
        s.len() == mask.len(),
    ensures
        filter_seq(s.map_values(f), mask) == filter_seq(s, mask).map_values(f),
    decreases s.len(),
{
    if s.len() > 0 {
        lemma_filter_map(s.drop_last(), mask.drop_last(), f);
        assert(s.map_values(f).drop_last() =~= s.drop_last().map_values(f));
        assert(filter_seq(s.drop_last(), mask.drop_last()).push(s.last()).map_values(f)
            =~= filter_seq(s.drop_last(), mask.drop_last()).map_values(f).push(f(s.last())));
    } else {
        assert(filter_seq(s.map_values(f), mask) =~= filter_seq(s, mask).map_values(f));
    }
}

fn filter_copy<T: Copy>(v: &Vec<T>, mask: &Vec<bool>) -> (r: Vec<T>)
    requires
        v.len() == mask.len(),
    ensures
        r@ == filter_seq(v@, mask@),
{
    let mut out: Vec<T> = Vec::new();
    let mut i: usize = 0;
    while i < v.len()
        invariant
            i <= v.len(),
            v.len() == mask.len(),
            out@ == filter_seq(v@.take(i as int), mask@.take(i as int)),
        decreases v.len() - i,
    {
        proof {
            assert(v@.take(i + 1).drop_last() =~= v@.take(i as int));
            assert(mask@.take(i + 1).drop_last() =~= mask@.take(i as int));
        }
        if mask[i] {
            out.push(v[i]);
        }
        i = i + 1;
    }
    proof {
        assert(v@.take(i as int) =~= v@);
        assert(mask@.take(i as int) =~= mask@);
    }
    out
}

fn filter_strings(v: &Vec<String>, mask: &Vec<bool>) -> (r: Vec<String>)
    requires
        v.len() == mask.len(),
    ensures
        r@ == filter_seq(v@, mask@),
{
    let mut out: Vec<String> = Vec::new();
    let mut i: usize = 0;
    while i < v.len()
        invariant
            i <= v.len(),
            v.len() == mask.len(),
            out@ == filter_seq(v@.take(i as int), mask@.take(i as int)),
        decreases v.len() - i,
    {
        proof {
            assert(v@.take(i + 1).drop_last() =~= v@.take(i as int));
            assert(mask@.take(i + 1).drop_last() =~= mask@.take(i as int));
        }
        if mask[i] {
            out.push(v[i].clone());
        }
        i = i + 1;
    }
    proof {
        assert(v@.take(i as int) =~= v@);
        assert(mask@.take(i as int) =~= mask@);
    }
    out
}

pub open spec fn view_bool(b: bool) -> Datum { Datum::Boolean(b) }
pub open spec fn view_i32(v: i32) -> Datum { Datum::Int32(v) }
pub open spec fn view_i64(v: i64) -> Datum { Datum::Int64(v) }
pub open spec fn view_f32(v: u32) -> Datum { Datum::Float32(v) }
pub open spec fn view_f64(v: u64) -> Datum { Datum::Float64(v) }
pub open spec fn view_str(s: String) -> Datum { Datum::Utf8(s@) }

/// An immutable column of values of one type. Floating-point columns hold
/// bit patterns.
#[derive(Debug, PartialEq, Eq)]
pub enum ColumnArray {
    Boolean(Vec<bool>),
    Int32(Vec<i32>),
    Int64(Vec<i64>),
    Float32(Vec<u32>),
    Float64(Vec<u64>),
    Utf8(Vec<String>),
}

impl View for ColumnArray {
    type V = Seq<Datum>;

    open spec fn view(&self) -> Seq<Datum> {
        match self {
            ColumnArray::Boolean(v) => v@.map_values(|b: bool| view_bool(b)),
            ColumnArray::Int32(v) => v@.map_values(|x: i32| view_i32(x)),
            ColumnArray::Int64(v) => v@.map_values(|x: i64| view_i64(x)),
            ColumnArray::Float32(v) => v@.map_values(|x: u32| view_f32(x)),
            ColumnArray::Float64(v) => v@.map_values(|x: u64| view_f64(x)),
            ColumnArray::Utf8(v) => v@.map_values(|s: String| view_str(s)),
        }
    }
}

impl ColumnArray {
    pub open spec fn data_type(&self) -> DataType {
        match self {
            ColumnArray::Boolean(_) => DataType::Boolean,
            ColumnArray::Int32(_) => DataType::Int32,
            ColumnArray::Int64(_) => DataType::Int64,
            ColumnArray::Float32(_) => DataType::Float32,
            ColumnArray::Float64(_) => DataType::Float64,
            ColumnArray::Utf8(_) => DataType::Utf8,
        }
    }

    /// Every value of the column carries the column's type.
    pub proof fn lemma_typed(&self)
        ensures
            forall|i: int| 0 <= i < self@.len() ==> datum_type(#[trigger] self@[i]) == self.data_type(),
    {
    }

    pub fn get_type(&self) -> (r: DataType)
        ensures
            r == self.data_type(),
    {
        match self {
            ColumnArray::Boolean(_) => DataType::Boolean,
            ColumnArray::Int32(_) => DataType::Int32,
            ColumnArray::Int64(_) => DataType::Int64,
            ColumnArray::Float32(_) => DataType::Float32,
            ColumnArray::Float64(_) => DataType::Float64,
            ColumnArray::Utf8(_) => DataType::Utf8,
        }
    }

    /// The number of rows.
    pub fn size(&self) -> (r: usize)
        ensures
            r == self@.len(),
    {
        match self {
            ColumnArray::Boolean(v) => v.len(),
            ColumnArray::Int32(v) => v.len(),
            ColumnArray::Int64(v) => v.len(),
            ColumnArray::Float32(v) => v.len(),
            ColumnArray::Float64(v) => v.len(),
            ColumnArray::Utf8(v) => v.len(),
        }
    }

    /// The value at row `i`, or `None` past the end.
    pub fn get_value(&self, i: usize) -> (r: Option<ScalarValue>)
        ensures
            i < self@.len() ==> (r matches Some(v) && v@ == self@[i as int]),
            i >= self@.len() ==> r is None,
    {
        if i >= self.size() {
            return None;
        }
        match self {
            ColumnArray::Boolean(v) => Some(ScalarValue::Boolean(v[i])),
            ColumnArray::Int32(v) => Some(ScalarValue::Int32(v[i])),
            ColumnArray::Int64(v) => Some(ScalarValue::Int64(v[i])),
            ColumnArray::Float32(v) => Some(ScalarValue::Float32(v[i])),
            ColumnArray::Float64(v) => Some(ScalarValue::Float64(v[i])),
            ColumnArray::Utf8(v) => Some(ScalarValue::String(v[i].clone())),
        }
    }

    /// The rows whose entry in `mask` is true, in order.
    pub fn filter(&self, mask: &Vec<bool>) -> (r: ColumnArray)
        requires
            mask.len() == self@.len(),
        ensures
            r@ == filter_seq(self@, mask@),
            r.data_type() == self.data_type(),
    {
        match self {
            ColumnArray::Boolean(v) => {
                proof { lemma_filter_map(v@, mask@, |b: bool| view_bool(b)); }
                ColumnArray::Boolean(filter_copy(v, mask))
            },
            ColumnArray::Int32(v) => {
                proof { lemma_filter_map(v@, mask@, |x: i32| view_i32(x)); }
                ColumnArray::Int32(filter_copy(v, mask))
            },
            ColumnArray::Int64(v) => {
                proof { lemma_filter_map(v@, mask@, |x: i64| view_i64(x)); }
                ColumnArray::Int64(filter_copy(v, mask))
            },
            ColumnArray::Float32(v) => {
                proof { lemma_filter_map(v@, mask@, |x: u32| view_f32(x)); }
                ColumnArray::Float32(filter_copy(v, mask))
            },
            ColumnArray::Float64(v) => {
                proof { lemma_filter_map(v@, mask@, |x: u64| view_f64(x)); }
                ColumnArray::Float64(filter_copy(v, mask))
            },
            ColumnArray::Utf8(v) => {
                proof { lemma_filter_map(v@, mask@, |s: String| view_str(s)); }
                ColumnArray::Utf8(filter_strings(v, mask))
            },
        }
    }
}

impl Clone for ColumnArray {
    fn clone(&self) -> (r: Self)
        ensures
            r@ == self@,
            r.data_type() == self.data_type(),
    {
        match self {
            ColumnArray::Boolean(v) => {
                let c = v.clone();
                proof { assert(c@ =~= v@); }
                ColumnArray::Boolean(c)
            },
            ColumnArray::Int32(v) => {
                let c = v.clone();
                proof { assert(c@ =~= v@); }
                ColumnArray::Int32(c)
            },
            ColumnArray::Int64(v) => {
                let c = v.clone();
                proof { assert(c@ =~= v@); }
                ColumnArray::Int64(c)
            },
            ColumnArray::Float32(v) => {
                let c = v.clone();
                proof { assert(c@ =~= v@); }
                ColumnArray::Float32(c)
            },
            ColumnArray::Float64(v) => {
                let c = v.clone();
                proof { assert(c@ =~= v@); }
                ColumnArray::Float64(c)
            },
            ColumnArray::Utf8(v) => {
                let c = v.clone();
                proof {
                    assert forall|i: int| 0 <= i < c@.len() implies c@[i] == v@[i] by {
                        assert(cloned::<String>(v[i], c[i]));
                    }
                    assert(c@ =~= v@);
                }
                ColumnArray::Utf8(c)
            },
        }
    }
}

/// A column as seen by contracts: its type and its values.
pub type ColumnView = (DataType, Seq<Datum>);

/// The columns of a batch as seen by contracts.
pub open spec fn batch_view(b: RecordBatch) -> Seq<ColumnView> {
    b.fields@.map_values(|c: ColumnArray| (c.data_type(), c@))
}

/// An immutable group of equally long columns tagged with a schema.
#[derive(Debug, Clone, PartialEq, Eq)]
pub struct RecordBatch {
    pub schema: Schema,
    pub fields: Vec<ColumnArray>,
    pub num_rows: usize,
}

impl RecordBatch {
    /// One column per field, and every column `num_rows` long.
    pub open spec fn wf(&self) -> bool {
        &&& self.fields@.len() == self.schema.fields@.len()
        &&& forall|i: int| 0 <= i < self.fields@.len() ==> (#[trigger] self.fields@[i])@.len() == self.num_rows
    }

    /// Builds a batch; its row count is the length of its columns (0 without
    /// columns). Fails when the column count differs from the field count or
    /// the columns differ in length.
    pub fn new(schema: Schema, fields: Vec<ColumnArray>) -> (r: Result<RecordBatch, EngineError>)
        ensures
            r matches Ok(b) ==> b.wf() && b.schema == schema && b.fields == fields
                && b.num_rows == (if fields@.len() == 0 { 0 } else { fields@[0]@.len() }),
            r is Err <==> !(fields@.len() == schema.fields@.len()
                && forall|i: int| 0 <= i < fields@.len() ==> (#[trigger] fields@[i])@.len() == fields@[0]@.len()),
    {
        let n: usize = if fields.len() == 0 { 0 } else { fields[0].size() };
        RecordBatch::with_row_count(schema, fields, n)
    }

    /// Builds a batch of `num_rows` rows; fails when the column count differs
    /// from the field count or a column has another length.
    pub fn with_row_count(schema: Schema, fields: Vec<ColumnArray>, num_rows: usize) -> (r: Result<RecordBatch, EngineError>)
        ensures
            r matches Ok(b) ==> b.wf() && b.schema == schema && b.fields == fields && b.num_rows == num_rows,
            r is Err <==> !(fields@.len() == schema.fields@.len()
                && forall|i: int| 0 <= i < fields@.len() ==> (#[trigger] fields@[i])@.len() == num_rows),
    {
        if fields.len() != schema.fields.len() {
            return Err(EngineError::new(ErrorKind::Invariant, "column count differs from field count"));
        }
        let mut i: usize = 0;
        while i < fields.len()
            invariant
                i <= fields.len(),
                forall|j: int| 0 <= j < i ==> (#[trigger] fields@[j])@.len() == num_rows,
            decreases fields.len() - i,
        {
            if fields[i].size() != num_rows {
                return Err(EngineError::new(ErrorKind::Invariant, "columns differ in length"));
            }
            i = i + 1;
        }
        Ok(RecordBatch { schema, fields, num_rows })
    }

    pub fn row_count(&self) -> (r: usize)
        ensures
            r == self.num_rows,
    {
        self.num_rows
    }

    pub fn column_count(&self) -> (r: usize)
        ensures
            r == self.fields@.len(),
    {
        self.fields.len()
    }

    /// The column at position `i`.
    pub fn field(&self, i: usize) -> (r: &ColumnArray)
        requires
            i < self.fields@.len(),
        ensures
            *r == self.fields@[i as int],
    {
        &self.fields[i]
    }
}

} // verus!
