use vstd::prelude::*;
use vstd::string::*;

use crate::column::{batch_view, ColumnArray, RecordBatch};
use crate::error::{EngineError, ErrorKind};
use crate::schema::{find_first, first_pos, lemma_first_pos_valid, Field, FieldView, Schema};

verus! {

/// The positions read by a scan of `names`: each name gives the position of
/// the first field with that name; names that match no field are dropped.
pub open spec fn scan_positions(fields: Seq<FieldView>, names: Seq<Seq<char>>) -> Seq<int>
    decreases names.len(),
{
    if names.len() == 0 {
        Seq::empty()
    } else {
        let rest = scan_positions(fields, names.drop_last());
        match first_pos(fields, names.last()) {
            Some(p) => rest.push(p),
            None => rest,
        }
    }
}

/// The batch that a scan reading `positions` makes of `b`.
pub open spec fn projected_batch(b: RecordBatch, positions: Seq<int>, r: RecordBatch) -> bool {
    &&& r.wf()
    &&& r.num_rows == b.num_rows
    &&& r.schema@ == positions.map_values(|p: int| b.schema@[p])
    &&& batch_view(r) == positions.map_values(|p: int| batch_view(b)[p])
}

/// A table held in memory as a sequence of batches.
#[derive(Debug, Clone)]
pub struct MemoryDataSource {
    pub schema: Schema,
    pub data: Vec<RecordBatch>,
}

impl MemoryDataSource {
    /// Every batch is well formed and carries the source's schema.
    pub open spec fn wf(&self) -> bool {
        forall|b: int| 0 <= b < self.data@.len() ==> (#[trigger] self.data@[b]).wf()
            && self.data@[b].schema@ == self.schema@
    }

    /// Builds a source; fails when a batch is malformed or has another schema.
    pub fn new(schema: Schema, data: Vec<RecordBatch>) -> (r: Result<MemoryDataSource, EngineError>)
        ensures
            r matches Ok(s) ==> s.wf() && s.schema == schema && s.data == data,
            r is Err <==> !(forall|b: int| 0 <= b < data@.len() ==> (#[trigger] data@[b]).wf()
                && data@[b].schema@ == schema@),
    {
        if batches_fit(&schema, &data) {
            Ok(MemoryDataSource { schema, data })
        } else {
            Err(EngineError::new(ErrorKind::Invariant, "a batch is malformed or has another schema"))
        }
    }

    /// Whether the source is well formed.
    pub fn is_well_formed(&self) -> (r: bool)
        ensures
            r == self.wf(),
    {
        batches_fit(&self.schema, &self.data)
    }

    pub fn get_schema(&self) -> (r: &Schema)
        ensures
            r == &self.schema,
    {
        &self.schema
    }

    /// One batch per stored batch, holding only the named columns in the
    /// order given; names that match no field are dropped.
    pub fn scan(&self, projection: Vec<&str>) -> (r: Vec<RecordBatch>)
        requires
            self.wf(),
        ensures
            r@.len() == self.data@.len(),
            forall|b: int| 0 <= b < r@.len() ==> projected_batch(self.data@[b],
                scan_positions(self.schema@, projection@.map_values(|n: &str| n@)), #[trigger] r@[b]),
    {
        let ghost names = projection@.map_values(|n: &str| n@);
        let mut positions: Vec<usize> = Vec::new();
        let mut fields: Vec<Field> = Vec::new();
        let mut k: usize = 0;
        while k < projection.len()
            invariant
                k <= projection.len(),
                names == projection@.map_values(|n: &str| n@),
                positions@.map_values(|p: usize| p as int) == scan_positions(self.schema@, names.take(k as int)),
                fields@.len() == positions@.len(),
                forall|j: int| 0 <= j < positions@.len() ==> #[trigger] positions@[j] < self.schema.fields@.len()
                    && fields@[j]@ == self.schema@[positions@[j] as int],
            decreases projection.len() - k,
        {
            proof {
                assert(names.take(k + 1).drop_last() =~= names.take(k as int));
            }
            let name = String::from_str(projection[k]);
            proof {
                lemma_first_pos_valid(self.schema@, name@);
            }
            match find_first(&self.schema.fields, &name) {
                Some(p) => {
                    positions.push(p);
                    fields.push(self.schema.fields[p].clone());
                    proof {
                        assert(positions@.map_values(|p: usize| p as int) =~= scan_positions(self.schema@, names.take(k as int)).push(p as int));
                    }
                },
                None => {},
            }
            k = k + 1;
        }
        proof {
            assert(names.take(k as int) =~= names);
        }
        let ghost pos = scan_positions(self.schema@, names);
        let schema = Schema::new(fields);
        proof {
            assert(schema@ =~= pos.map_values(|p: int| self.schema@[p]));
        }
        let mut out: Vec<RecordBatch> = Vec::new();
        let mut b: usize = 0;
        while b < self.data.len()
            invariant
                b <= self.data.len(),
                self.wf(),
                pos == positions@.map_values(|p: usize| p as int),
                forall|j: int| 0 <= j < positions@.len() ==> #[trigger] positions@[j] < self.schema.fields@.len(),
                schema@ == pos.map_values(|p: int| self.schema@[p]),
                schema.fields@.len() == positions@.len(),
                out@.len() == b,
                forall|c: int| 0 <= c < b ==> projected_batch(self.data@[c], pos, #[trigger] out@[c]),
            decreases self.data.len() - b,
        {
            let batch = &self.data[b];
            proof {
                assert(self.data@[b as int].wf() && self.data@[b as int].schema@ == self.schema@);
                assert(batch.schema@.len() == self.schema@.len());
            }
            let mut cols: Vec<ColumnArray> = Vec::new();
            let mut j: usize = 0;
            while j < positions.len()
                invariant
                    j <= positions.len(),
                    *batch == self.data@[b as int],
                    batch.wf(),
                    batch.fields@.len() == self.schema.fields@.len(),
                    batch.schema@ == self.schema@,
                    forall|i: int| 0 <= i < positions@.len() ==> #[trigger] positions@[i] < self.schema.fields@.len(),
                    cols@.len() == j,
                    forall|i: int| 0 <= i < j ==> (#[trigger] cols@[i])@ == batch.fields@[positions@[i] as int]@
                        && cols@[i].data_type() == batch.fields@[positions@[i] as int].data_type(),
                decreases positions.len() - j,
            {
                let p = positions[j];
                cols.push(batch.fields[p].clone());
                j = j + 1;
            }
            let nb = RecordBatch { schema: schema.clone(), fields: cols, num_rows: batch.num_rows };
            proof {
                assert(batch_view(nb) =~= pos.map_values(|p: int| batch_view(*batch)[p]));
                assert(nb.schema@ =~= pos.map_values(|p: int| batch.schema@[p]));
                assert forall|i: int| 0 <= i < nb.fields@.len() implies (#[trigger] nb.fields@[i])@.len() == nb.num_rows by {
                    assert(nb.fields@[i]@ == batch.fields@[positions@[i] as int]@);
                    assert(batch.fields@[positions@[i] as int]@.len() == batch.num_rows);
                }
            }
            out.push(nb);
            b = b + 1;
        }
        out
    }
}

/// Every batch is well formed and carries `schema`.
pub fn batches_fit(schema: &Schema, data: &Vec<RecordBatch>) -> (r: bool)
    ensures
        r == (forall|b: int| 0 <= b < data@.len() ==> (#[trigger] data@[b]).wf()
            && data@[b].schema@ == schema@),
{
    let mut b: usize = 0;
    while b < data.len()
        invariant
            b <= data.len(),
            forall|k: int| 0 <= k < b ==> (#[trigger] data@[k]).wf() && data@[k].schema@ == schema@,
        decreases data.len() - b,
    {
        let batch = &data[b];
        if batch.fields.len() != batch.schema.fields.len() {
            assert(!data@[b as int].wf());
            return false;
        }
        let mut i: usize = 0;
        while i < batch.fields.len()
            invariant
                i <= batch.fields.len(),
                b < data@.len(),
                *batch == data@[b as int],
                forall|j: int| 0 <= j < i ==> (#[trigger] batch.fields@[j])@.len() == batch.num_rows,
            decreases batch.fields.len() - i,
        {
            if batch.fields[i].size() != batch.num_rows {
                assert(data@[b as int].fields@[i as int]@.len() != data@[b as int].num_rows);
                assert(!data@[b as int].wf());
                return false;
            }
            i = i + 1;
        }
        if !same_fields(&batch.schema, &schema) {
            return false;
        }
        b = b + 1;
    }
    true
}

/// Compares two schemas field by field.
pub fn same_fields(a: &Schema, b: &Schema) -> (r: bool)
    ensures
        r == (a@ == b@),
{
    if a.fields.len() != b.fields.len() {
        assert(a@.len() != b@.len());
        return false;
    }
    let mut i: usize = 0;
    while i < a.fields.len()
        invariant
            i <= a.fields.len(),
            a.fields.len() == b.fields.len(),
            forall|j: int| 0 <= j < i ==> a@[j] == b@[j],
        decreases a.fields.len() - i,
    {
        if a.fields[i].name != b.fields[i].name || a.fields[i].data_type != b.fields[i].data_type {
            assert(a@[i as int] != b@[i as int]);
            return false;
        }
        i = i + 1;
    }
    assert(a@ =~= b@);
    true
}

/// A delimited text file whose rows were read into batches of `batch_size`.
#[derive(Debug, Clone)]
pub struct CsvDataSource {
    pub path: String,
    pub batch_size: usize,
    pub table: MemoryDataSource,
}

/// Where a scan reads from.
#[derive(Debug, Clone)]
pub enum Source {
    Memory(MemoryDataSource),
    Csv(CsvDataSource),
}

impl Source {
    /// Whether the source is well formed.
    pub fn is_well_formed(&self) -> (r: bool)
        ensures
            r == self.wf(),
    {
        match self {
            Source::Memory(m) => m.is_well_formed(),
            Source::Csv(c) => c.table.is_well_formed(),
        }
    }

    pub open spec fn table(&self) -> MemoryDataSource {
        match self {
            Source::Memory(m) => *m,
            Source::Csv(c) => c.table,
        }
    }

    pub open spec fn wf(&self) -> bool {
        self.table().wf()
    }

    /// The source's full schema.
    pub fn get_schema(&self) -> (r: &Schema)
        ensures
            r == &self.table().schema,
    {
        match self {
            Source::Memory(m) => &m.schema,
            Source::Csv(c) => &c.table.schema,
        }
    }

    /// The source's batches restricted to the named columns.
    pub fn scan(&self, projection: Vec<&str>) -> (r: Vec<RecordBatch>)
        requires
            self.wf(),
        ensures
            r@.len() == self.table().data@.len(),
            forall|b: int| 0 <= b < r@.len() ==> projected_batch(self.table().data@[b],
                scan_positions(self.table().schema@, projection@.map_values(|n: &str| n@)), #[trigger] r@[b]),
    {
        match self {
            Source::Memory(m) => m.scan(projection),
            Source::Csv(c) => c.table.scan(projection),
        }
    }
}

} // verus!
