use vstd::prelude::*;
use vstd::string::*;

use crate::aggregate::{aggregate_model, batches_view, hash_aggregate, AggregateExpr};
use crate::column::{batch_view, filter_seq, ColumnArray, ColumnView, Datum, RecordBatch};
use crate::data_source::{scan_positions, Source};
use crate::error::{EngineError, ErrorKind};
use crate::logical_expr::AggregateFunction;
use crate::logical_plan::names_text;
use crate::physical_expr::{eval, eval_all, evaluate_all, phys_text, Expr};
use crate::schema::{has_unique, select_spec, unique_pos, DataType, FieldView, Schema};

verus! {

/// Scans a data source, keeping only the named columns. An empty list reads
/// every column: its schema is then the source's full schema, as for a
/// logical scan without projection, which the planner lowers with its
/// projection unchanged. A non-empty list gives the source schema selected
/// by those names, and the batches hold those columns in that order.
#[derive(Debug)]
pub struct ScanExec {
    pub data_source: Source,
    pub projection: Vec<String>,
}

/// Computes one column per expression for each input batch.
#[derive(Debug)]
pub struct ProjectionExec {
    pub input: Box<Plan>,
    pub schema: Schema,
    pub expr: Vec<Expr>,
}

/// Keeps the rows of each input batch on which the predicate is true.
#[derive(Debug)]
pub struct SelectionExec {
    pub input: Box<Plan>,
    pub expr: Expr,
}

/// Groups all input rows by key and emits one batch of aggregates.
#[derive(Debug)]
pub struct HashExec {
    pub input: Box<Plan>,
    pub schema: Schema,
    pub group_exprs: Vec<Expr>,
    pub aggregate_inputs: Vec<Expr>,
    pub aggregate_funs: Vec<AggregateFunction>,
}

/// A physical query plan.
#[derive(Debug)]
pub enum Plan {
    Scan(ScanExec),
    Projection(ProjectionExec),
    Selection(SelectionExec),
    Hash(HashExec),
}

/// A batch as seen by contracts: its columns and its row count.
pub type BatchView = (Seq<ColumnView>, nat);

pub open spec fn scan_names(s: ScanExec) -> Seq<Seq<char>> {
    s.projection@.map_values(|n: String| n@)
}

/// The output schema of a physical plan.
pub open spec fn phys_schema(p: Plan) -> Result<Seq<FieldView>, ErrorKind>
    decreases p,
{
    match p {
        Plan::Scan(s) => {
            let full = s.data_source.table().schema@;
            if s.projection@.len() == 0 {
                Ok(full)
            } else {
                match select_spec(full, scan_names(s)) {
                    Some(x) => Ok(x),
                    None => Err(ErrorKind::Resolution),
                }
            }
        },
        Plan::Projection(p) => Ok(p.schema@),
        Plan::Selection(s) => phys_schema(*s.input),
        Plan::Hash(h) => Ok(h.schema@),
    }
}

/// The stored schemas fit the expressions and every source is well formed.
pub open spec fn phys_wf(p: Plan) -> bool
    decreases p,
{
    match p {
        Plan::Scan(s) => s.data_source.wf(),
        Plan::Projection(p) => p.schema.fields@.len() == p.expr@.len() && phys_wf(*p.input),
        Plan::Selection(s) => phys_wf(*s.input),
        Plan::Hash(h) => h.schema.fields@.len() == h.group_exprs@.len() + h.aggregate_funs@.len()
            && h.aggregate_inputs@.len() == h.aggregate_funs@.len() && phys_wf(*h.input),
    }
}

/// The batches a scan emits.
pub open spec fn scan_output(s: ScanExec) -> Result<Seq<BatchView>, ErrorKind> {
    let t = s.data_source.table();
    if s.projection@.len() == 0 {
        Ok(batches_view(t.data@))
    } else if select_spec(t.schema@, scan_names(s)) is None {
        Err(ErrorKind::Resolution)
    } else {
        let pos = scan_positions(t.schema@, scan_names(s));
        Ok(Seq::new(t.data@.len(), |b: int| (pos.map_values(|p: int| batch_view(t.data@[b])[p]), t.data@[b].num_rows as nat)))
    }
}

/// The first `k` batches of a projection, or the first failure.
pub open spec fn project_batches(exprs: Seq<Expr>, bs: Seq<BatchView>, k: nat) -> Result<Seq<BatchView>, ErrorKind>
    decreases k,
{
    if k == 0 {
        Ok(Seq::empty())
    } else {
        match project_batches(exprs, bs, (k - 1) as nat) {
            Err(e) => Err(e),
            Ok(out) => match eval_all(exprs, bs[k - 1].0, bs[k - 1].1) {
                Err(e) => Err(e),
                Ok(cs) => Ok(out.push((cs, bs[k - 1].1))),
            },
        }
    }
}

/// The rows of a boolean column that are true.
pub open spec fn true_mask(vals: Seq<Datum>) -> Seq<bool> {
    vals.map_values(|d: Datum| d == Datum::Boolean(true))
}

/// One batch filtered by a predicate.
pub open spec fn select_batch(pred: Expr, b: BatchView) -> Result<BatchView, ErrorKind> {
    match eval(pred, b.0, b.1) {
        Err(k) => Err(k),
        Ok(c) => if c.0 != DataType::Boolean {
            Err(ErrorKind::Type)
        } else {
            let mask = true_mask(c.1);
            Ok((b.0.map_values(|col: ColumnView| (col.0, filter_seq(col.1, mask))), filter_seq(c.1, mask).len()))
        },
    }
}

/// The first `k` batches of a selection, or the first failure.
pub open spec fn select_batches(pred: Expr, bs: Seq<BatchView>, k: nat) -> Result<Seq<BatchView>, ErrorKind>
    decreases k,
{
    if k == 0 {
        Ok(Seq::empty())
    } else {
        match select_batches(pred, bs, (k - 1) as nat) {
            Err(e) => Err(e),
            Ok(out) => match select_batch(pred, bs[k - 1]) {
                Err(e) => Err(e),
                Ok(b) => Ok(out.push(b)),
            },
        }
    }
}

/// The batches a physical plan emits, or the first failure.
pub open spec fn run(p: Plan) -> Result<Seq<BatchView>, ErrorKind>
    decreases p,
{
    match p {
        Plan::Scan(s) => scan_output(s),
        Plan::Projection(proj) => match run(*proj.input) {
            Err(e) => Err(e),
            Ok(bs) => project_batches(proj.expr@, bs, bs.len()),
        },
        Plan::Selection(sel) => match run(*sel.input) {
            Err(e) => Err(e),
            Ok(bs) => select_batches(sel.expr, bs, bs.len()),
        },
        Plan::Hash(h) => match run(*h.input) {
            Err(e) => Err(e),
            Ok(bs) => match aggregate_model(h.group_exprs@, h.aggregate_inputs@, h.aggregate_funs@, h.schema@, bs) {
                Err(e) => Err(e),
                Ok(b) => Ok(seq![b]),
            },
        },
    }
}

/// The emitted batches agree with the model, each well formed and tagged
/// with the plan's schema.
pub open spec fn emitted(r: Result<Vec<RecordBatch>, EngineError>, p: Plan) -> bool {
    match (r, run(p)) {
        (Ok(bs), Ok(m)) => {
            &&& phys_schema(p) is Ok
            &&& bs@.len() == m.len()
            &&& forall|i: int| 0 <= i < bs@.len() ==> (#[trigger] bs@[i]).wf()
                && bs@[i].schema@ == phys_schema(p)->Ok_0
                && (batch_view(bs@[i]), bs@[i].num_rows as nat) == m[i]
        },
        (Err(e), Err(k)) => e.kind == k,
        _ => false,
    }
}

pub proof fn lemma_filter_len<A, B>(s: Seq<A>, t: Seq<B>, mask: Seq<bool>)
    requires
        s.len() == mask.len(),
        t.len() == mask.len(),
    ensures
        filter_seq(s, mask).len() == filter_seq(t, mask).len(),
    decreases mask.len(),
{
    if mask.len() > 0 {
        lemma_filter_len(s.drop_last(), t.drop_last(), mask.drop_last());
    }
}

proof fn lemma_scan_positions_all(fields: Seq<FieldView>, names: Seq<Seq<char>>)
    requires
        forall|k: int| 0 <= k < names.len() ==> has_unique(fields, #[trigger] names[k]),
    ensures
        scan_positions(fields, names) == names.map_values(|n: Seq<char>| unique_pos(fields, n)),
    decreases names.len(),
{
    if names.len() > 0 {
        let init = names.drop_last();
        assert forall|k: int| 0 <= k < init.len() implies has_unique(fields, #[trigger] init[k]) by {
            assert(init[k] == names[k]);
        }
        lemma_scan_positions_all(fields, init);
        assert(has_unique(fields, names[names.len() - 1]));
        let p = unique_pos(fields, names.last());
        assert(crate::schema::named_at(fields, names.last(), p));
        crate::schema::lemma_first_pos_unique(fields, names.last(), p);
        assert(names.map_values(|n: Seq<char>| unique_pos(fields, n))
            =~= init.map_values(|n: Seq<char>| unique_pos(fields, n)).push(unique_pos(fields, names.last())));
    } else {
        assert(names.map_values(|n: Seq<char>| unique_pos(fields, n)) =~= Seq::<int>::empty());
    }
}

proof fn lemma_project_err(exprs: Seq<Expr>, bs: Seq<BatchView>, k: nat, n: nat)
    requires
        k <= n,
        project_batches(exprs, bs, k) is Err,
    ensures
        project_batches(exprs, bs, n) == project_batches(exprs, bs, k),
    decreases n - k,
{
    if k < n {
        lemma_project_err(exprs, bs, k, (n - 1) as nat);
    }
}

proof fn lemma_select_err(pred: Expr, bs: Seq<BatchView>, k: nat, n: nat)
    requires
        k <= n,
        select_batches(pred, bs, k) is Err,
    ensures
        select_batches(pred, bs, n) == select_batches(pred, bs, k),
    decreases n - k,
{
    if k < n {
        lemma_select_err(pred, bs, k, (n - 1) as nat);
    }
}

/// A copy of a batch with the same schema, columns and row count.
pub fn copy_batch(b: &RecordBatch) -> (r: RecordBatch)
    ensures
        r.schema@ == b.schema@,
        batch_view(r) == batch_view(*b),
        r.num_rows == b.num_rows,
        b.wf() ==> r.wf(),
{
    let mut cols: Vec<ColumnArray> = Vec::new();
    let mut i: usize = 0;
    while i < b.fields.len()
        invariant
            i <= b.fields.len(),
            cols@.len() == i,
            forall|j: int| 0 <= j < i ==> (#[trigger] cols@[j])@ == b.fields@[j]@
                && cols@[j].data_type() == b.fields@[j].data_type(),
        decreases b.fields.len() - i,
    {
        cols.push(b.fields[i].clone());
        i = i + 1;
    }
    let r = RecordBatch { schema: b.schema.clone(), fields: cols, num_rows: b.num_rows };
    assert(batch_view(r) =~= batch_view(*b));
    r
}

impl ScanExec {
    pub fn new(data_source: Source, projection: Vec<String>) -> (r: ScanExec)
        ensures
            r.data_source == data_source,
            r.projection == projection,
    {
        ScanExec { data_source, projection }
    }

    fn names(&self) -> (r: Vec<&str>)
        ensures
            r@.map_values(|n: &str| n@) == scan_names(*self),
    {
        let mut names: Vec<&str> = Vec::new();
        let mut k: usize = 0;
        while k < self.projection.len()
            invariant
                k <= self.projection.len(),
                names@.len() == k,
                forall|i: int| 0 <= i < k ==> (#[trigger] names@[i])@ == self.projection@[i]@,
            decreases self.projection.len() - k,
        {
            names.push(self.projection[k].as_str());
            k = k + 1;
        }
        assert(names@.map_values(|n: &str| n@) =~= scan_names(*self));
        names
    }

    /// The source's schema, or the selected fields.
    pub fn schema(&self) -> (r: Result<Schema, EngineError>)
        ensures
            match (r, phys_schema(Plan::Scan(*self))) {
                (Ok(s), Ok(m)) => s@ == m,
                (Err(e), Err(k)) => e.kind == k,
                _ => false,
            },
    {
        let full = self.data_source.get_schema();
        if self.projection.len() == 0 {
            Ok(full.clone())
        } else {
            full.select(self.names())
        }
    }

    /// The source's batches, restricted to the projection.
    pub fn execute(&self) -> (r: Result<Vec<RecordBatch>, EngineError>)
        requires
            self.data_source.wf(),
        ensures
            emitted(r, Plan::Scan(*self)),
    {
        let ghost t = self.data_source.table();
        if self.projection.len() == 0 {
            let src = self.data_source.get_schema();
            let mut out: Vec<RecordBatch> = Vec::new();
            let data = match &self.data_source {
                Source::Memory(m) => &m.data,
                Source::Csv(c) => &c.table.data,
            };
            let mut b: usize = 0;
            while b < data.len()
                invariant
                    b <= data.len(),
                    *data == t.data,
                    t.wf(),
                    out@.len() == b,
                    forall|i: int| 0 <= i < b ==> (#[trigger] out@[i]).wf()
                        && out@[i].schema@ == t.schema@
                        && (batch_view(out@[i]), out@[i].num_rows as nat) == batches_view(t.data@)[i],
                decreases data.len() - b,
            {
                out.push(copy_batch(&data[b]));
                b = b + 1;
            }
            return Ok(out);
        }
        let schema = match self.schema() {
            Ok(s) => s,
            Err(e) => {
                return Err(e);
            },
        };
        let ghost names = scan_names(*self);
        let ghost pos = scan_positions(t.schema@, names);
        proof {
            lemma_scan_positions_all(t.schema@, names);
            assert(pos.map_values(|p: int| t.schema@[p]) =~= schema@);
        }
        let out = self.data_source.scan(self.names());
        proof {
            let m = scan_output(*self)->Ok_0;
            assert forall|i: int| 0 <= i < out@.len() implies (#[trigger] out@[i]).wf()
                && out@[i].schema@ == phys_schema(Plan::Scan(*self))->Ok_0
                && (batch_view(out@[i]), out@[i].num_rows as nat) == m[i] by {
                assert(t.data@[i].wf() && t.data@[i].schema@ == t.schema@);
                assert(out@[i].schema@ =~= pos.map_values(|p: int| t.data@[i].schema@[p]));
            }
        }
        Ok(out)
    }

    pub fn to_string(&self) -> (r: String)
        ensures
            r@ == "ScanExec: projection="@ + names_text(self.projection@, self.projection@.len() as nat),
    {
        let mut s = String::from_str("ScanExec: projection=");
        let ghost start = s@;
        let mut k: usize = 0;
        while k < self.projection.len()
            invariant
                k <= self.projection.len(),
                s@ == start + names_text(self.projection@, k as nat),
            decreases self.projection.len() - k,
        {
            if k > 0 {
                s.append(",");
            }
            s.append(self.projection[k].as_str());
            k = k + 1;
        }
        s
    }
}

impl ProjectionExec {
    pub fn new(input: Plan, schema: Schema, expr: Vec<Expr>) -> (r: ProjectionExec)
        ensures
            *r.input == input,
            r.schema == schema,
            r.expr == expr,
    {
        ProjectionExec { input: Box::new(input), schema, expr }
    }
}

impl SelectionExec {
    pub fn new(input: Plan, expr: Expr) -> (r: SelectionExec)
        ensures
            *r.input == input,
            r.expr == expr,
    {
        SelectionExec { input: Box::new(input), expr }
    }
}

impl HashExec {
    /// Splits each aggregate into its input expression and its function.
    pub fn new(input: Plan, schema: Schema, group_exprs: Vec<Expr>, aggregate_exprs: Vec<AggregateExpr>) -> (r: HashExec)
        ensures
            *r.input == input,
            r.schema == schema,
            r.group_exprs == group_exprs,
            r.aggregate_inputs@ == aggregate_exprs@.map_values(|a: AggregateExpr| a.expr),
            r.aggregate_funs@ == aggregate_exprs@.map_values(|a: AggregateExpr| a.fun),
    {
        let ghost orig = aggregate_exprs@;
        let mut rest = aggregate_exprs;
        let mut inputs: Vec<Expr> = Vec::new();
        let mut funs: Vec<AggregateFunction> = Vec::new();
        while rest.len() > 0
            invariant
                inputs@.len() + rest@.len() == orig.len(),
                funs@.len() == inputs@.len(),
                rest@ == orig.subrange(inputs@.len() as int, orig.len() as int),
                forall|i: int| 0 <= i < inputs@.len() ==> #[trigger] inputs@[i] == orig[i].expr,
                forall|i: int| 0 <= i < funs@.len() ==> #[trigger] funs@[i] == orig[i].fun,
            decreases rest.len(),
        {
            let a = rest.remove(0);
            inputs.push(a.expr);
            funs.push(a.fun);
        }
        proof {
            assert(inputs@ =~= orig.map_values(|a: AggregateExpr| a.expr));
            assert(funs@ =~= orig.map_values(|a: AggregateExpr| a.fun));
        }
        HashExec { input: Box::new(input), schema, group_exprs, aggregate_inputs: inputs, aggregate_funs: funs }
    }
}

impl Plan {
    /// Whether the plan can be executed: stored schemas fit the expressions
    /// and every source is well formed.
    pub fn is_well_formed(&self) -> (r: bool)
        ensures
            r == phys_wf(*self),
        decreases self,
    {
        match self {
            Plan::Scan(s) => s.data_source.is_well_formed(),
            Plan::Projection(p) => p.schema.fields.len() == p.expr.len() && p.input.is_well_formed(),
            Plan::Selection(s) => s.input.is_well_formed(),
            Plan::Hash(h) => h.aggregate_inputs.len() == h.aggregate_funs.len()
                && h.group_exprs.len() <= h.schema.fields.len()
                && h.schema.fields.len() - h.group_exprs.len() == h.aggregate_funs.len()
                && h.input.is_well_formed(),
        }
    }

    /// The output schema.
    pub fn schema(&self) -> (r: Result<Schema, EngineError>)
        ensures
            match (r, phys_schema(*self)) {
                (Ok(s), Ok(m)) => s@ == m,
                (Err(e), Err(k)) => e.kind == k,
                _ => false,
            },
        decreases self,
    {
        match self {
            Plan::Scan(s) => s.schema(),
            Plan::Projection(p) => Ok(p.schema.clone()),
            Plan::Selection(s) => s.input.schema(),
            Plan::Hash(h) => Ok(h.schema.clone()),
        }
    }

    /// The plan's children.
    pub fn children(&self) -> (r: Vec<&Plan>)
        ensures
            self is Scan ==> r@.len() == 0,
            self is Projection ==> r@.len() == 1 && *r@[0] == *self->Projection_0.input,
            self is Selection ==> r@.len() == 1 && *r@[0] == *self->Selection_0.input,
            self is Hash ==> r@.len() == 1 && *r@[0] == *self->Hash_0.input,
    {
        match self {
            Plan::Scan(_) => Vec::new(),
            Plan::Projection(p) => vec![&*p.input],
            Plan::Selection(s) => vec![&*s.input],
            Plan::Hash(h) => vec![&*h.input],
        }
    }

    /// Runs the plan and returns the batches it emits, in order.
    pub fn execute(&self) -> (r: Result<Vec<RecordBatch>, EngineError>)
        requires
            phys_wf(*self),
        ensures
            emitted(r, *self),
        decreases self,
    {
        match self {
            Plan::Scan(s) => s.execute(),
            Plan::Projection(p) => {
                let input = match p.input.execute() {
                    Ok(bs) => bs,
                    Err(e) => {
                        return Err(e);
                    },
                };
                let ghost m = run(*p.input)->Ok_0;
                let mut out: Vec<RecordBatch> = Vec::new();
                let mut b: usize = 0;
                while b < input.len()
                    invariant
                        b <= input.len(),
                        emitted(Ok::<Vec<RecordBatch>, EngineError>(input), *p.input),
                        *self == Plan::Projection(*p),
                        m == run(*p.input)->Ok_0,
                        p.schema.fields@.len() == p.expr@.len(),
                        project_batches(p.expr@, m, b as nat) matches Ok(o) && out@.len() == b && o.len() == b
                            && forall|i: int| 0 <= i < b ==> (#[trigger] out@[i]).wf()
                                && out@[i].schema@ == p.schema@
                                && (batch_view(out@[i]), out@[i].num_rows as nat) == o[i],
                    decreases input.len() - b,
                {
                    let batch = &input[b];
                    proof {
                        assert(input@[b as int].wf());
                        crate::aggregate::lemma_eval_all_rows_batch(p.expr@, *batch);
                    }
                    let ghost o = project_batches(p.expr@, m, b as nat)->Ok_0;
                    proof {
                        assert(m[b as int] == (batch_view(input@[b as int]), input@[b as int].num_rows as nat));
                    }
                    match evaluate_all(&p.expr, batch) {
                        Ok(cols) => {
                            let nb = RecordBatch { schema: p.schema.clone(), fields: cols, num_rows: batch.num_rows };
                            let ghost prev = out@;
                            let ghost cs = eval_all(p.expr@, batch_view(*batch), batch.num_rows as nat)->Ok_0;
                            proof {
                                assert forall|i: int| 0 <= i < nb.fields@.len() implies (#[trigger] nb.fields@[i])@.len() == nb.num_rows by {
                                    assert(cs[i].1.len() == batch.num_rows);
                                }
                                assert(batch_view(nb) == cs);
                                assert(nb.fields@.len() == cs.len());
                                assert(nb.wf());
                                assert(project_batches(p.expr@, m, (b + 1) as nat) == Ok::<Seq<BatchView>, ErrorKind>(o.push((cs, m[b as int].1))));
                            }
                            out.push(nb);
                            proof {
                                assert(out@ == prev.push(nb));
                                let o2 = o.push((cs, m[b as int].1));
                                assert forall|i: int| 0 <= i < b + 1 implies (#[trigger] out@[i]).wf()
                                    && out@[i].schema@ == p.schema@
                                    && (batch_view(out@[i]), out@[i].num_rows as nat) == o2[i] by {
                                    if i < b {
                                        assert(out@[i] == prev[i]);
                                        assert(o2[i] == o[i]);
                                    } else {
                                        assert(out@[i] == nb);
                                    }
                                }
                            }
                        },
                        Err(e) => {
                            proof {
                                lemma_project_err(p.expr@, m, (b + 1) as nat, m.len());
                            }
                            return Err(e);
                        },
                    }
                    b = b + 1;
                }
                Ok(out)
            },
            Plan::Selection(s) => {
                let input = match s.input.execute() {
                    Ok(bs) => bs,
                    Err(e) => {
                        return Err(e);
                    },
                };
                let ghost m = run(*s.input)->Ok_0;
                let mut out: Vec<RecordBatch> = Vec::new();
                let mut b: usize = 0;
                while b < input.len()
                    invariant
                        b <= input.len(),
                        emitted(Ok::<Vec<RecordBatch>, EngineError>(input), *s.input),
                        *self == Plan::Selection(*s),
                        m == run(*s.input)->Ok_0,
                        select_batches(s.expr, m, b as nat) matches Ok(o) && out@.len() == b && o.len() == b
                            && forall|i: int| 0 <= i < b ==> (#[trigger] out@[i]).wf()
                                && out@[i].schema@ == phys_schema(*s.input)->Ok_0
                                && (batch_view(out@[i]), out@[i].num_rows as nat) == o[i],
                    decreases input.len() - b,
                {
                    let batch = &input[b];
                    proof {
                        assert(input@[b as int].wf());
                        crate::physical_expr::eval_preserves_rows(s.expr, batch_view(*batch), batch.num_rows as nat);
                        assert forall|i: int| 0 <= i < batch_view(*batch).len() implies (#[trigger] batch_view(*batch)[i]).1.len() == batch.num_rows by {
                            assert(batch.fields@[i]@.len() == batch.num_rows);
                        }
                    }
                    let ghost o = select_batches(s.expr, m, b as nat)->Ok_0;
                    proof {
                        assert(m[b as int] == (batch_view(input@[b as int]), input@[b as int].num_rows as nat));
                    }
                    let pred = match s.expr.evaluate(batch) {
                        Ok(c) => c,
                        Err(e) => {
                            proof {
                                lemma_select_err(s.expr, m, (b + 1) as nat, m.len());
                            }
                            return Err(e);
                        },
                    };
                    let mask = match &pred {
                        ColumnArray::Boolean(v) => v,
                        _ => {
                            proof {
                                lemma_select_err(s.expr, m, (b + 1) as nat, m.len());
                            }
                            return Err(EngineError::new(ErrorKind::Type, "predicate is not boolean"));
                        },
                    };
                    proof {
                        assert(mask@ =~= true_mask(pred@));
                    }
                    let mut cols: Vec<ColumnArray> = Vec::new();
                    let mut j: usize = 0;
                    while j < batch.fields.len()
                        invariant
                            j <= batch.fields.len(),
                            batch.wf(),
                            mask@.len() == batch.num_rows,
                            mask@ == true_mask(pred@),
                            cols@.len() == j,
                            forall|i: int| 0 <= i < j ==> (#[trigger] cols@[i])@ == filter_seq(batch.fields@[i]@, mask@)
                                && cols@[i].data_type() == batch.fields@[i].data_type(),
                        decreases batch.fields.len() - j,
                    {
                        proof {
                            assert(batch.fields@[j as int]@.len() == batch.num_rows);
                        }
                        cols.push(batch.fields[j].filter(mask));
                        j = j + 1;
                    }
                    let rows = pred.filter(mask).size();
                    let nb = RecordBatch { schema: batch.schema.clone(), fields: cols, num_rows: rows };
                    proof {
                        assert forall|i: int| 0 <= i < nb.fields@.len() implies (#[trigger] nb.fields@[i])@.len() == nb.num_rows by {
                            assert(batch.fields@[i]@.len() == batch.num_rows);
                            lemma_filter_len(batch.fields@[i]@, pred@, mask@);
                        }
                        assert(batch_view(nb) =~= batch_view(*batch).map_values(|col: ColumnView| (col.0, filter_seq(col.1, mask@))));
                        assert(select_batch(s.expr, m[b as int]) == Ok::<BatchView, ErrorKind>((batch_view(nb), nb.num_rows as nat)));
                        assert(nb.schema@ == phys_schema(*s.input)->Ok_0);
                    }
                    let ghost prev = out@;
                    out.push(nb);
                    proof {
                        assert(out@ == prev.push(nb));
                        let o2 = o.push((batch_view(nb), nb.num_rows as nat));
                        assert(select_batches(s.expr, m, (b + 1) as nat) == Ok::<Seq<BatchView>, ErrorKind>(o2));
                        assert forall|i: int| 0 <= i < b + 1 implies (#[trigger] out@[i]).wf()
                            && out@[i].schema@ == phys_schema(*s.input)->Ok_0
                            && (batch_view(out@[i]), out@[i].num_rows as nat) == o2[i] by {
                            if i < b {
                                assert(out@[i] == prev[i]);
                                assert(o2[i] == o[i]);
                            } else {
                                assert(out@[i] == nb);
                                assert(nb.wf());
                            }
                        }
                    }
                    b = b + 1;
                }
                Ok(out)
            },
            Plan::Hash(h) => {
                let input = match h.input.execute() {
                    Ok(bs) => bs,
                    Err(e) => {
                        return Err(e);
                    },
                };
                proof {
                    assert(batches_view(input@) =~= run(*h.input)->Ok_0);
                }
                match hash_aggregate(&h.group_exprs, &h.aggregate_inputs, &h.aggregate_funs, &h.schema, &input) {
                    Ok(batch) => {
                        let mut out: Vec<RecordBatch> = Vec::new();
                        out.push(batch);
                        Ok(out)
                    },
                    Err(e) => Err(e),
                }
            },
        }
    }

    /// The one-line description of the plan's root node.
    pub fn to_string(&self) -> (r: String)
        ensures
            r@ == phys_plan_text(*self),
    {
        match self {
            Plan::Scan(s) => s.to_string(),
            Plan::Projection(p) => {
                let mut s = String::from_str("ProjectionExec: ");
                let ghost start = s@;
                let mut k: usize = 0;
                while k < p.expr.len()
                    invariant
                        k <= p.expr.len(),
                        s@ == start + phys_exprs_text(p.expr@, k as nat),
                    decreases p.expr.len() - k,
                {
                    if k > 0 {
                        s.append(",");
                    }
                    s.append(p.expr[k].to_string().as_str());
                    k = k + 1;
                }
                s
            },
            Plan::Selection(sel) => String::from_str("SelectionExec: ").concat(sel.expr.to_string().as_str()),
            Plan::Hash(h) => {
                let mut s = String::from_str("HashAggregateExec: groupExpr=");
                let ghost start = s@;
                let mut k: usize = 0;
                while k < h.group_exprs.len()
                    invariant
                        k <= h.group_exprs.len(),
                        s@ == start + phys_exprs_text(h.group_exprs@, k as nat),
                    decreases h.group_exprs.len() - k,
                {
                    if k > 0 {
                        s.append(",");
                    }
                    s.append(h.group_exprs[k].to_string().as_str());
                    k = k + 1;
                }
                s
            },
        }
    }
}

/// The printed forms of the first `k` expressions, separated by `,`.
pub open spec fn phys_exprs_text(exprs: Seq<Expr>, k: nat) -> Seq<char>
    decreases k,
{
    if k == 0 || k > exprs.len() {
        Seq::empty()
    } else if k == 1 {
        phys_text(exprs[0])
    } else {
        phys_exprs_text(exprs, (k - 1) as nat) + ","@ + phys_text(exprs[k - 1])
    }
}

/// The one-line description of a physical plan node.
pub open spec fn phys_plan_text(p: Plan) -> Seq<char> {
    match p {
        Plan::Scan(s) => "ScanExec: projection="@ + names_text(s.projection@, s.projection@.len() as nat),
        Plan::Projection(x) => "ProjectionExec: "@ + phys_exprs_text(x.expr@, x.expr@.len() as nat),
        Plan::Selection(x) => "SelectionExec: "@ + phys_text(x.expr),
        Plan::Hash(h) => "HashAggregateExec: groupExpr="@ + phys_exprs_text(h.group_exprs@, h.group_exprs@.len() as nat),
    }
}

/// Running a plan twice gives the same batches: the emitted sequence is a
/// function of the plan alone.
pub proof fn execution_is_deterministic(p: Plan, r1: Vec<RecordBatch>, r2: Vec<RecordBatch>)
    requires
        emitted(Ok(r1), p),
        emitted(Ok(r2), p),
    ensures
        r1@.len() == r2@.len(),
        forall|i: int| 0 <= i < r1@.len() ==> batch_view(#[trigger] r1@[i]) == batch_view(r2@[i])
            && r1@[i].num_rows == r2@[i].num_rows && r1@[i].schema@ == r2@[i].schema@,
{
    assert forall|i: int| 0 <= i < r1@.len() implies batch_view(#[trigger] r1@[i]) == batch_view(r2@[i])
        && r1@[i].num_rows == r2@[i].num_rows && r1@[i].schema@ == r2@[i].schema@ by {
        let m = run(p)->Ok_0;
        assert((batch_view(r1@[i]), r1@[i].num_rows as nat) == m[i]);
        assert((batch_view(r2@[i]), r2@[i].num_rows as nat) == m[i]);
    }
}

/// Every emitted batch has one column per field of the operator's schema,
/// all of the batch's row count.
pub proof fn emitted_batches_fit_schema(p: Plan, r: Vec<RecordBatch>)
    requires
        emitted(Ok(r), p),
    ensures
        phys_schema(p) is Ok,
        forall|b: int| 0 <= b < r@.len() ==> (#[trigger] r@[b]).fields@.len() == phys_schema(p)->Ok_0.len()
            && forall|c: int| 0 <= c < r@[b].fields@.len() ==> (#[trigger] r@[b].fields@[c])@.len() == r@[b].num_rows,
{
    assert forall|b: int| 0 <= b < r@.len() implies (#[trigger] r@[b]).fields@.len() == phys_schema(p)->Ok_0.len()
        && forall|c: int| 0 <= c < r@[b].fields@.len() ==> (#[trigger] r@[b].fields@[c])@.len() == r@[b].num_rows by {
        assert(r@[b].wf());
        assert(r@[b].schema@.len() == r@[b].schema.fields@.len());
    }
}

} // verus!
