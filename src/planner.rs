use vstd::prelude::*;

use crate::aggregate::{batches_view, AggregateExpr};
use crate::column::RecordBatch;
use crate::data_source::{CsvDataSource, MemoryDataSource, Source};
use crate::error::{schema_model, EngineError, ErrorKind};
use crate::logical_expr::{AggregateFunction, Expr as LogicalExpr, ScalarValue as LogicalScalarValue};
use crate::logical_plan::{plan_schema, resolve_all, resolve_exprs, Plan as LogicalPlan};
use crate::physical_expr::{BinaryExpr, Cast, Column, Expr as PhysicalExpr, ScalarValue as PhysicalScalarValue};
use crate::column::batch_view;
use crate::physical_plan::{copy_batch, phys_schema, phys_wf, run, scan_names, scan_output, HashExec, Plan as PhysicalPlan, ProjectionExec, ScanExec, SelectionExec};
use crate::logical_expr::{key_bits32, key_bits64, resolve};
use crate::schema::{find_unique, has_unique, select_spec, unique_pos, DataType, FieldView, Schema};

verus! {

/// The physical form of a logical constant.
pub open spec fn lower_value(v: LogicalScalarValue) -> PhysicalScalarValue {
    match v {
        LogicalScalarValue::String(s) => PhysicalScalarValue::String(s),
        LogicalScalarValue::Int32(x) => PhysicalScalarValue::Int32(x),
        LogicalScalarValue::Int64(x) => PhysicalScalarValue::Int64(x),
        LogicalScalarValue::Float32(k, _) => PhysicalScalarValue::Float32(key_bits32(k)),
        LogicalScalarValue::Float64(k, _) => PhysicalScalarValue::Float64(key_bits64(k)),
    }
}

/// The physical expression a logical one lowers to against an input whose
/// fields are `input`, or which failed with an error of kind `input->Err_0`.
/// Only a reference by name reads the input; a literal lowers, and `NOT` or
/// a scalar function fails, whatever the input is.
pub open spec fn lower(e: LogicalExpr, input: Result<Seq<FieldView>, ErrorKind>) -> Result<PhysicalExpr, ErrorKind>
    decreases e,
{
    match e {
        LogicalExpr::Column(c) => match input {
            Err(k) => Err(k),
            Ok(s) => if has_unique(s, c.name@) {
                Ok(PhysicalExpr::Column(Column { index: unique_pos(s, c.name@) as usize }))
            } else {
                Err(ErrorKind::Resolution)
            },
        },
        LogicalExpr::ColumnIndex(c) => Ok(PhysicalExpr::Column(Column { index: c.index })),
        LogicalExpr::Literal(v) => Ok(PhysicalExpr::Literal(lower_value(v))),
        LogicalExpr::Cast(c) => match lower(*c.expr, input) {
            Ok(x) => Ok(PhysicalExpr::Cast(Cast { expr: Box::new(x), data_type: c.data_type })),
            Err(k) => Err(k),
        },
        LogicalExpr::BinaryExpr(b) => match lower(*b.left, input) {
            Err(k) => Err(k),
            Ok(l) => match lower(*b.right, input) {
                Err(k) => Err(k),
                Ok(r) => Ok(PhysicalExpr::BinaryExpr(BinaryExpr { op: b.op, left: Box::new(l), right: Box::new(r) })),
            },
        },
        LogicalExpr::Alias(a) => lower(*a.expr, input),
        _ => Err(ErrorKind::Plan),
    }
}

/// Every expression lowered, or the first failure.
pub open spec fn lower_all(exprs: Seq<LogicalExpr>, s: Seq<FieldView>) -> Result<Seq<PhysicalExpr>, ErrorKind>
    decreases exprs.len(),
{
    if exprs.len() == 0 {
        Ok(Seq::empty())
    } else {
        match lower_all(exprs.drop_last(), s) {
            Err(k) => Err(k),
            Ok(xs) => match lower(exprs.last(), Ok(s)) {
                Err(k) => Err(k),
                Ok(x) => Ok(xs.push(x)),
            },
        }
    }
}

/// The inputs of aggregate expressions lowered, or the first failure; an
/// entry that is not an aggregate function is a plan error.
pub open spec fn lower_aggregates(exprs: Seq<LogicalExpr>, s: Seq<FieldView>) -> Result<Seq<PhysicalExpr>, ErrorKind>
    decreases exprs.len(),
{
    if exprs.len() == 0 {
        Ok(Seq::empty())
    } else {
        match lower_aggregates(exprs.drop_last(), s) {
            Err(k) => Err(k),
            Ok(xs) => match exprs.last() {
                LogicalExpr::AggregateFunction(a) => match lower(*a.expr, Ok(s)) {
                    Err(k) => Err(k),
                    Ok(x) => Ok(xs.push(x)),
                },
                _ => Err(ErrorKind::Plan),
            },
        }
    }
}

/// The functions of aggregate expressions.
pub open spec fn aggregate_funs(exprs: Seq<LogicalExpr>) -> Seq<AggregateFunction> {
    exprs.map_values(|e: LogicalExpr| match e {
        LogicalExpr::AggregateFunction(a) => a.fun,
        _ => AggregateFunction::Count,
    })
}

/// Every scan of the plan reads a well-formed source.
pub open spec fn logical_wf(p: LogicalPlan) -> bool
    decreases p,
{
    match p {
        LogicalPlan::Scan(s) => s.data_source.wf(),
        LogicalPlan::Projection(x) => logical_wf(*x.input),
        LogicalPlan::Selection(x) => logical_wf(*x.input),
        LogicalPlan::Aggregate(x) => logical_wf(*x.input),
    }
}

/// Two sources hold the same schema and batches.
pub open spec fn same_source(a: Source, b: Source) -> bool {
    &&& a.table().schema@ == b.table().schema@
    &&& batches_view(a.table().data@) == batches_view(b.table().data@)
}

/// The outcome of lowering a plan: `None` on success, else the first failure.
pub open spec fn plan_error(l: LogicalPlan) -> Option<ErrorKind>
    decreases l,
{
    match l {
        LogicalPlan::Scan(_) => None,
        LogicalPlan::Projection(p) => match plan_error(*p.input) {
            Some(k) => Some(k),
            None => match plan_schema(*p.input) {
                Err(k) => Some(k),
                Ok(s) => match lower_all(p.exprs@, s) {
                    Err(k) => Some(k),
                    Ok(_) => match resolve_all(p.exprs@, s) {
                        Err(k) => Some(k),
                        Ok(_) => None,
                    },
                },
            },
        },
        LogicalPlan::Selection(x) => match plan_error(*x.input) {
            Some(k) => Some(k),
            None => match plan_schema(*x.input) {
                Err(k) => Some(k),
                Ok(s) => match lower(x.expr, Ok(s)) {
                    Err(k) => Some(k),
                    Ok(_) => match resolve(x.expr, Ok(s)) {
                        Err(k) => Some(k),
                        Ok(f) => if f.1 != DataType::Boolean { Some(ErrorKind::Type) } else { None },
                    },
                },
            },
        },
        LogicalPlan::Aggregate(a) => match plan_error(*a.input) {
            Some(k) => Some(k),
            None => match plan_schema(*a.input) {
                Err(k) => Some(k),
                Ok(s) => match lower_all(a.group_exprs@, s) {
                    Err(k) => Some(k),
                    Ok(_) => match lower_aggregates(a.aggregate_exprs@, s) {
                        Err(k) => Some(k),
                        Ok(_) => match plan_schema(l) {
                            Err(k) => Some(k),
                            Ok(_) => None,
                        },
                    },
                },
            },
        },
    }
}

/// `p` is what lowering `l` gives: the same tree shape, scans reading the
/// same data with the same projection, expressions lowered against the
/// input's schema, and stored schemas equal to the logical ones.
pub open spec fn lowered(l: LogicalPlan, p: PhysicalPlan) -> bool
    decreases l,
{
    match (l, p) {
        (LogicalPlan::Scan(s), PhysicalPlan::Scan(x)) => same_source(s.data_source, x.data_source)
            && (s.data_source.wf() ==> x.data_source.wf())
            && x.projection@ == s.projection@,
        (LogicalPlan::Projection(a), PhysicalPlan::Projection(b)) => {
            &&& lowered(*a.input, *b.input)
            &&& plan_schema(*a.input) matches Ok(s)
            &&& lower_all(a.exprs@, s) == Ok::<Seq<PhysicalExpr>, ErrorKind>(b.expr@)
            &&& plan_schema(l) == Ok::<Seq<FieldView>, ErrorKind>(b.schema@)
        },
        (LogicalPlan::Selection(a), PhysicalPlan::Selection(b)) => {
            &&& lowered(*a.input, *b.input)
            &&& plan_schema(*a.input) matches Ok(s)
            &&& lower(a.expr, Ok(s)) == Ok::<PhysicalExpr, ErrorKind>(b.expr)
        },
        (LogicalPlan::Aggregate(a), PhysicalPlan::Hash(h)) => {
            &&& lowered(*a.input, *h.input)
            &&& plan_schema(*a.input) matches Ok(s)
            &&& lower_all(a.group_exprs@, s) == Ok::<Seq<PhysicalExpr>, ErrorKind>(h.group_exprs@)
            &&& lower_aggregates(a.aggregate_exprs@, s) == Ok::<Seq<PhysicalExpr>, ErrorKind>(h.aggregate_inputs@)
            &&& h.aggregate_funs@ == aggregate_funs(a.aggregate_exprs@)
            &&& plan_schema(l) == Ok::<Seq<FieldView>, ErrorKind>(h.schema@)
        },
        _ => false,
    }
}

/// A copy of a source holding the same schema and batches.
pub fn copy_source(s: &Source) -> (r: Source)
    ensures
        same_source(*s, r),
        s.wf() ==> r.wf(),
{
    let t = match s {
        Source::Memory(m) => m,
        Source::Csv(c) => &c.table,
    };
    let mut data: Vec<RecordBatch> = Vec::new();
    let mut b: usize = 0;
    while b < t.data.len()
        invariant
            b <= t.data.len(),
            *t == s.table(),
            data@.len() == b,
            forall|i: int| 0 <= i < b ==> (#[trigger] data@[i]).schema@ == t.data@[i].schema@
                && crate::column::batch_view(data@[i]) == crate::column::batch_view(t.data@[i])
                && data@[i].num_rows == t.data@[i].num_rows
                && (t.data@[i].wf() ==> data@[i].wf()),
        decreases t.data.len() - b,
    {
        data.push(copy_batch(&t.data[b]));
        b = b + 1;
    }
    let table = MemoryDataSource { schema: t.schema.clone(), data };
    proof {
        assert(batches_view(table.data@) =~= batches_view(t.data@));
    }
    match s {
        Source::Memory(_) => Source::Memory(table),
        Source::Csv(c) => Source::Csv(CsvDataSource { path: c.path.clone(), batch_size: c.batch_size, table }),
    }
}

proof fn lemma_resolve_all_len(exprs: Seq<LogicalExpr>, s: Seq<FieldView>)
    ensures
        resolve_all(exprs, s) matches Ok(fs) ==> fs.len() == exprs.len(),
    decreases exprs.len(),
{
    if exprs.len() > 0 {
        lemma_resolve_all_len(exprs.drop_last(), s);
    }
}

proof fn lemma_lower_all_len(exprs: Seq<LogicalExpr>, s: Seq<FieldView>)
    ensures
        lower_all(exprs, s) matches Ok(xs) ==> xs.len() == exprs.len(),
    decreases exprs.len(),
{
    if exprs.len() > 0 {
        lemma_lower_all_len(exprs.drop_last(), s);
    }
}

proof fn lemma_lower_aggregates_len(exprs: Seq<LogicalExpr>, s: Seq<FieldView>)
    ensures
        lower_aggregates(exprs, s) matches Ok(xs) ==> xs.len() == exprs.len(),
    decreases exprs.len(),
{
    if exprs.len() > 0 {
        lemma_lower_aggregates_len(exprs.drop_last(), s);
    }
}

/// A lowered plan of a plan over well-formed sources can be executed.
pub proof fn lemma_lowered_wf(l: LogicalPlan, p: PhysicalPlan)
    requires
        lowered(l, p),
        logical_wf(l),
    ensures
        phys_wf(p),
    decreases l,
{
    match (l, p) {
        (LogicalPlan::Projection(a), PhysicalPlan::Projection(b)) => {
            lemma_lowered_wf(*a.input, *b.input);
            lemma_resolve_all_len(a.exprs@, plan_schema(*a.input)->Ok_0);
            lemma_lower_all_len(a.exprs@, plan_schema(*a.input)->Ok_0);
            assert(b.schema@.len() == b.schema.fields@.len());
            assert(b.schema@.len() == a.exprs@.len());
        },
        (LogicalPlan::Selection(a), PhysicalPlan::Selection(b)) => {
            lemma_lowered_wf(*a.input, *b.input);
        },
        (LogicalPlan::Aggregate(a), PhysicalPlan::Hash(h)) => {
            let s = plan_schema(*a.input)->Ok_0;
            lemma_lowered_wf(*a.input, *h.input);
            lemma_resolve_all_len(a.group_exprs@, s);
            lemma_resolve_all_len(a.aggregate_exprs@, s);
            lemma_lower_all_len(a.group_exprs@, s);
            lemma_lower_aggregates_len(a.aggregate_exprs@, s);
            assert(h.schema@.len() == h.schema.fields@.len());
            assert(h.schema@.len() == a.group_exprs@.len() + a.aggregate_exprs@.len());
        },
        _ => {},
    }
}

fn lower_value_exec(v: &LogicalScalarValue) -> (r: PhysicalScalarValue)
    ensures
        r == lower_value(*v),
{
    match v {
        LogicalScalarValue::String(s) => PhysicalScalarValue::String(s.clone()),
        LogicalScalarValue::Int32(x) => PhysicalScalarValue::Int32(*x),
        LogicalScalarValue::Int64(x) => PhysicalScalarValue::Int64(*x),
        LogicalScalarValue::Float32(k, _) => PhysicalScalarValue::Float32(
            if *k & 0x8000_0000u32 != 0 { *k & 0x7fff_ffffu32 } else { !*k }),
        LogicalScalarValue::Float64(k, _) => PhysicalScalarValue::Float64(
            if *k & 0x8000_0000_0000_0000u64 != 0 { *k & 0x7fff_ffff_ffff_ffffu64 } else { !*k }),
    }
}

/// Lowers an expression against an input schema, or an input whose schema
/// failed; only references by name read the input.
pub fn lower_expr(e: &LogicalExpr, input: &Result<Schema, EngineError>) -> (r: Result<PhysicalExpr, EngineError>)
    ensures
        match (r, lower(*e, schema_model(*input))) {
            (Ok(x), Ok(y)) => x == y,
            (Err(err), Err(k)) => err.kind == k,
            _ => false,
        },
    decreases e,
{
    match e {
        LogicalExpr::Column(c) => match input {
            Err(e) => Err(e.clone_error()),
            Ok(schema) => match find_unique(&schema.fields, &c.name) {
                Some(i) => {
                    proof {
                        assert(crate::schema::named_at(schema@, c.name@, i as int));
                        let p = unique_pos(schema@, c.name@);
                        assert(crate::schema::named_at(schema@, c.name@, p));
                    }
                    Ok(PhysicalExpr::Column(Column::new(i)))
                },
                None => Err(EngineError::new(ErrorKind::Resolution, "no unique column with this name")),
            },
        },
        LogicalExpr::ColumnIndex(c) => Ok(PhysicalExpr::Column(Column::new(c.index))),
        LogicalExpr::Literal(v) => Ok(PhysicalExpr::Literal(lower_value_exec(v))),
        LogicalExpr::Cast(c) => {
            let x = lower_expr(&c.expr, input)?;
            Ok(PhysicalExpr::Cast(Cast::new(x, c.data_type)))
        },
        LogicalExpr::BinaryExpr(b) => {
            let l = lower_expr(&b.left, input)?;
            let r = lower_expr(&b.right, input)?;
            Ok(PhysicalExpr::BinaryExpr(BinaryExpr::new(b.op, l, r)))
        },
        LogicalExpr::Alias(a) => lower_expr(&a.expr, input),
        LogicalExpr::Not(_) => Err(EngineError::new(ErrorKind::Plan, "NOT cannot be lowered")),
        LogicalExpr::ScalarFunction(_) => Err(EngineError::new(ErrorKind::Plan, "scalar functions cannot be lowered")),
        LogicalExpr::AggregateFunction(_) => Err(EngineError::new(ErrorKind::Plan, "an aggregate cannot be lowered as an expression")),
    }
}

proof fn lemma_lower_all_prefix_err(exprs: Seq<LogicalExpr>, s: Seq<FieldView>, n: int)
    requires
        0 <= n <= exprs.len(),
        lower_all(exprs.take(n), s) is Err,
    ensures
        lower_all(exprs, s) == lower_all(exprs.take(n), s),
    decreases exprs.len() - n,
{
    if n < exprs.len() {
        assert(exprs.take(n + 1).drop_last() =~= exprs.take(n));
        lemma_lower_all_prefix_err(exprs, s, n + 1);
    } else {
        assert(exprs.take(n) =~= exprs);
    }
}

proof fn lemma_lower_aggregates_prefix_err(exprs: Seq<LogicalExpr>, s: Seq<FieldView>, n: int)
    requires
        0 <= n <= exprs.len(),
        lower_aggregates(exprs.take(n), s) is Err,
    ensures
        lower_aggregates(exprs, s) == lower_aggregates(exprs.take(n), s),
    decreases exprs.len() - n,
{
    if n < exprs.len() {
        assert(exprs.take(n + 1).drop_last() =~= exprs.take(n));
        lemma_lower_aggregates_prefix_err(exprs, s, n + 1);
    } else {
        assert(exprs.take(n) =~= exprs);
    }
}

/// Lowers every expression, stopping at the first failure.
pub fn lower_exprs(exprs: &Vec<LogicalExpr>, schema: &Schema) -> (r: Result<Vec<PhysicalExpr>, EngineError>)
    ensures
        match (r, lower_all(exprs@, schema@)) {
            (Ok(x), Ok(y)) => x@ == y,
            (Err(err), Err(k)) => err.kind == k,
            _ => false,
        },
{
    let input: Result<Schema, EngineError> = Ok(schema.clone());
    let mut out: Vec<PhysicalExpr> = Vec::new();
    let mut k: usize = 0;
    while k < exprs.len()
        invariant
            k <= exprs.len(),
            schema_model(input) == Ok::<Seq<FieldView>, ErrorKind>(schema@),
            lower_all(exprs@.take(k as int), schema@) == Ok::<Seq<PhysicalExpr>, ErrorKind>(out@),
        decreases exprs.len() - k,
    {
        proof {
            assert(exprs@.take(k + 1).drop_last() =~= exprs@.take(k as int));
            assert(exprs@.take(k + 1).last() == exprs@[k as int]);
        }
        match lower_expr(&exprs[k], &input) {
            Ok(x) => {
                out.push(x);
            },
            Err(e) => {
                proof {
                    lemma_lower_all_prefix_err(exprs@, schema@, (k + 1) as int);
                }
                return Err(e);
            },
        }
        k = k + 1;
    }
    proof {
        assert(exprs@.take(k as int) =~= exprs@);
    }
    Ok(out)
}

/// Lowers the input of every aggregate expression, keeping its function.
pub fn lower_aggregate_exprs(exprs: &Vec<LogicalExpr>, schema: &Schema) -> (r: Result<Vec<AggregateExpr>, EngineError>)
    ensures
        match (r, lower_aggregates(exprs@, schema@)) {
            (Ok(x), Ok(y)) => x@.map_values(|a: AggregateExpr| a.expr) == y
                && x@.map_values(|a: AggregateExpr| a.fun) == aggregate_funs(exprs@),
            (Err(err), Err(k)) => err.kind == k,
            _ => false,
        },
{
    let input: Result<Schema, EngineError> = Ok(schema.clone());
    let mut out: Vec<AggregateExpr> = Vec::new();
    let mut k: usize = 0;
    proof {
        assert(out@.map_values(|a: AggregateExpr| a.expr) =~= Seq::<PhysicalExpr>::empty());
        assert(out@.map_values(|a: AggregateExpr| a.fun) =~= aggregate_funs(exprs@.take(0)));
    }
    while k < exprs.len()
        invariant
            k <= exprs.len(),
            lower_aggregates(exprs@.take(k as int), schema@) == Ok::<Seq<PhysicalExpr>, ErrorKind>(out@.map_values(|a: AggregateExpr| a.expr)),
            out@.map_values(|a: AggregateExpr| a.fun) == aggregate_funs(exprs@.take(k as int)),
            schema_model(input) == Ok::<Seq<FieldView>, ErrorKind>(schema@),
        decreases exprs.len() - k,
    {
        proof {
            assert(exprs@.take(k + 1).drop_last() =~= exprs@.take(k as int));
            assert(exprs@.take(k + 1).last() == exprs@[k as int]);
        }
        match &exprs[k] {
            LogicalExpr::AggregateFunction(a) => match lower_expr(&a.expr, &input) {
                Ok(x) => {
                    let ghost prev = out@;
                    out.push(AggregateExpr::new(x, a.fun));
                    proof {
                        assert(out@.map_values(|a: AggregateExpr| a.expr) =~= prev.map_values(|a: AggregateExpr| a.expr).push(x));
                        assert(aggregate_funs(exprs@.take(k + 1)) =~= aggregate_funs(exprs@.take(k as int)).push(a.fun));
                        assert(out@.map_values(|a: AggregateExpr| a.fun) =~= prev.map_values(|a: AggregateExpr| a.fun).push(a.fun));
                    }
                },
                Err(e) => {
                    proof {
                        lemma_lower_aggregates_prefix_err(exprs@, schema@, (k + 1) as int);
                    }
                    return Err(e);
                },
            },
            _ => {
                proof {
                    lemma_lower_aggregates_prefix_err(exprs@, schema@, (k + 1) as int);
                }
                return Err(EngineError::new(ErrorKind::Plan, "aggregate list holds a non-aggregate expression"));
            },
        }
        k = k + 1;
    }
    proof {
        assert(exprs@.take(k as int) =~= exprs@);
    }
    Ok(out)
}

/// Lowers logical plans and expressions to physical ones.
pub struct QueryPlanner;

impl QueryPlanner {
    /// Lowers a logical plan: a scan to a scan of the same data, a projection
    /// or selection to its physical operator with its expressions lowered
    /// against the input's schema, an aggregate to a hash aggregate.
    pub fn create_physical_plan(plan: &LogicalPlan) -> (r: Result<PhysicalPlan, EngineError>)
        ensures
            match r {
                Ok(p) => plan_error(*plan) is None && lowered(*plan, p),
                Err(e) => plan_error(*plan) == Some(e.kind),
            },
        decreases plan,
    {
        match plan {
            LogicalPlan::Scan(s) => {
                let projection = s.projection.clone();
                proof {
                    assert forall|i: int| 0 <= i < projection@.len() implies projection@[i] == s.projection@[i] by {
                        assert(cloned::<String>(s.projection[i], projection[i]));
                    }
                    assert(projection@ =~= s.projection@);
                }
                Ok(PhysicalPlan::Scan(ScanExec::new(copy_source(&s.data_source), projection)))
            },
            LogicalPlan::Projection(p) => {
                let input = QueryPlanner::create_physical_plan(&p.input)?;
                let schema = p.input.schema()?;
                let exprs = lower_exprs(&p.exprs, &schema)?;
                let fields = resolve_exprs(&p.exprs, &schema)?;
                let out = Schema::new(fields);
                Ok(PhysicalPlan::Projection(ProjectionExec::new(input, out, exprs)))
            },
            LogicalPlan::Selection(s) => {
                let input = QueryPlanner::create_physical_plan(&s.input)?;
                let schema = s.input.schema()?;
                let input_schema: Result<Schema, EngineError> = Ok(schema.clone());
                let pred = lower_expr(&s.expr, &input_schema)?;
                let f = s.expr.resolve_in(&input_schema)?;
                if f.data_type != DataType::Boolean {
                    return Err(EngineError::new(ErrorKind::Type, "the predicate is not boolean"));
                }
                Ok(PhysicalPlan::Selection(SelectionExec::new(input, pred)))
            },
            LogicalPlan::Aggregate(a) => {
                let input = QueryPlanner::create_physical_plan(&a.input)?;
                let schema = a.input.schema()?;
                let groups = lower_exprs(&a.group_exprs, &schema)?;
                let aggs = lower_aggregate_exprs(&a.aggregate_exprs, &schema)?;
                let out = plan.schema()?;
                Ok(PhysicalPlan::Hash(HashExec::new(input, out, groups, aggs)))
            },
        }
    }

    /// Lowers an expression against the output of `input`. Only references
    /// by name depend on the input's schema resolving.
    pub fn create_physical_expr(expr: &LogicalExpr, input: &LogicalPlan) -> (r: Result<PhysicalExpr, EngineError>)
        ensures
            match (r, lower(*expr, plan_schema(*input))) {
                (Ok(x), Ok(y)) => x == y,
                (Err(e), Err(k)) => e.kind == k,
                _ => false,
            },
    {
        let schema = input.schema();
        lower_expr(expr, &schema)
    }
}

/// Lowering a column reference by position and evaluating it over columns
/// of that many fields gives the column at that position.
pub proof fn lower_column_index_reads_column(i: usize, s: Seq<FieldView>, cols: Seq<crate::column::ColumnView>, n: nat)
    requires
        i < s.len(),
        cols.len() == s.len(),
    ensures
        lower(LogicalExpr::ColumnIndex(crate::logical_expr::ColumnIndex { index: i }), Ok(s))
            == Ok::<PhysicalExpr, ErrorKind>(PhysicalExpr::Column(Column { index: i })),
        crate::physical_expr::eval(PhysicalExpr::Column(Column { index: i }), cols, n)
            == Ok::<crate::column::ColumnView, ErrorKind>(cols[i as int]),
{
}

proof fn lemma_same_scan_output(a: ScanExec, b: ScanExec)
    requires
        same_source(a.data_source, b.data_source),
        a.projection@ == b.projection@,
    ensures
        scan_output(a) == scan_output(b),
        phys_schema(PhysicalPlan::Scan(a)) == phys_schema(PhysicalPlan::Scan(b)),
{
    let ta = a.data_source.table();
    let tb = b.data_source.table();
    assert(scan_names(a) == scan_names(b));
    assert(batches_view(ta.data@).len() == ta.data@.len());
    assert(batches_view(tb.data@).len() == tb.data@.len());
    assert forall|i: int| 0 <= i < ta.data@.len() implies batch_view(ta.data@[i]) == batch_view(tb.data@[i])
        && ta.data@[i].num_rows == tb.data@[i].num_rows by {
        assert(batches_view(ta.data@)[i] == batches_view(tb.data@)[i]);
    }
    if a.projection@.len() != 0 && select_spec(ta.schema@, scan_names(a)) is Some {
        assert(scan_output(a)->Ok_0 =~= scan_output(b)->Ok_0);
    }
}

/// Two physical plans that both lower the same logical plan have the same
/// schema and emit the same batches: planning a plan twice, or planning it
/// after optimizing it, gives plans that run alike.
pub proof fn lowered_plans_run_alike(l: LogicalPlan, p1: PhysicalPlan, p2: PhysicalPlan)
    requires
        lowered(l, p1),
        lowered(l, p2),
    ensures
        run(p1) == run(p2),
        phys_schema(p1) == phys_schema(p2),
    decreases l,
{
    match (l, p1, p2) {
        (LogicalPlan::Scan(_), PhysicalPlan::Scan(a), PhysicalPlan::Scan(b)) => {
            lemma_same_scan_output(a, b);
        },
        (LogicalPlan::Projection(x), PhysicalPlan::Projection(a), PhysicalPlan::Projection(b)) => {
            lowered_plans_run_alike(*x.input, *a.input, *b.input);
        },
        (LogicalPlan::Selection(x), PhysicalPlan::Selection(a), PhysicalPlan::Selection(b)) => {
            lowered_plans_run_alike(*x.input, *a.input, *b.input);
        },
        (LogicalPlan::Aggregate(x), PhysicalPlan::Hash(a), PhysicalPlan::Hash(b)) => {
            lowered_plans_run_alike(*x.input, *a.input, *b.input);
        },
        _ => {},
    }
}

/// Planning an optimized plan gives a plan that runs as the plan of the
/// unoptimized one, since optimizing is idempotent and keeps the plan.
pub proof fn optimized_planning_runs_alike(l: LogicalPlan, p1: PhysicalPlan, p2: PhysicalPlan)
    requires
        lowered(crate::optimizer::optimized(l), p1),
        lowered(crate::optimizer::optimized(crate::optimizer::optimized(l)), p2),
    ensures
        run(p1) == run(p2),
        phys_schema(p1) == phys_schema(p2),
{
    crate::optimizer::optimize_is_idempotent(l);
    lowered_plans_run_alike(crate::optimizer::optimized(l), p1, p2);
}

} // verus!
