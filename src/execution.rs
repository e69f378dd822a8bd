use vstd::prelude::*;

use crate::column::RecordBatch;
use crate::data_source::{CsvDataSource, MemoryDataSource, Source};
use crate::error::{same_outcome, EngineError};
use crate::logical_expr::Expr;
use crate::logical_plan::{plan_schema, Aggregate, Plan as LogicalPlan, Projection, Scan, Selection};
use crate::optimizer::{optimized, Optimizer};
use crate::physical_plan::Plan as PhysicalPlan;
use crate::planner::{lowered, plan_error, QueryPlanner};
use crate::schema::Schema;

verus! {

/// A fluent builder of logical plans.
#[derive(Debug)]
pub struct DataFrame {
    pub plan: LogicalPlan,
}

impl DataFrame {
    pub fn new(plan: LogicalPlan) -> (r: DataFrame)
        ensures
            r.plan == plan,
    {
        DataFrame { plan }
    }

    /// A projection of this frame's plan.
    pub fn project(self, exprs: Vec<Expr>) -> (r: DataFrame)
        ensures
            r.plan == LogicalPlan::Projection(Projection { input: Box::new(self.plan), exprs }),
    {
        DataFrame { plan: LogicalPlan::Projection(Projection::new(self.plan, exprs)) }
    }

    /// A selection of this frame's plan.
    pub fn filter(self, expr: Expr) -> (r: DataFrame)
        ensures
            r.plan == LogicalPlan::Selection(Selection { input: Box::new(self.plan), expr }),
    {
        DataFrame { plan: LogicalPlan::Selection(Selection::new(self.plan, expr)) }
    }

    /// A grouped aggregation of this frame's plan.
    pub fn aggregate(self, group_exprs: Vec<Expr>, aggregate_exprs: Vec<Expr>) -> (r: DataFrame)
        ensures
            r.plan == LogicalPlan::Aggregate(Aggregate { input: Box::new(self.plan), group_exprs, aggregate_exprs }),
    {
        DataFrame { plan: LogicalPlan::Aggregate(Aggregate::new(self.plan, group_exprs, aggregate_exprs)) }
    }

    pub fn schema(&self) -> (r: Result<Schema, EngineError>)
        ensures
            same_outcome(r, plan_schema(self.plan)),
    {
        self.plan.schema()
    }

    pub fn logical_plan(&self) -> (r: &LogicalPlan)
        ensures
            *r == self.plan,
    {
        &self.plan
    }
}

/// Creates data frames over sources and turns them into physical plans.
#[derive(Debug)]
pub struct ExecutionContext {
    pub batch_size: usize,
}

impl ExecutionContext {
    pub fn new(batch_size: usize) -> (r: ExecutionContext)
        ensures
            r.batch_size == batch_size,
    {
        ExecutionContext { batch_size }
    }

    /// A frame scanning the rows of the delimited file at `file_path`, read
    /// into `batches` of this context's batch size. Fails when a batch is
    /// malformed or does not carry `schema`.
    pub fn csv(&self, file_path: String, schema: Schema, batches: Vec<RecordBatch>) -> (r: Result<DataFrame, EngineError>)
        ensures
            r matches Ok(df) ==> (df.plan matches LogicalPlan::Scan(s) && s.path == file_path
                && s.projection@.len() == 0 && s.data_source.wf()
                && (s.data_source matches Source::Csv(c) && c.batch_size == self.batch_size && c.path == file_path)
                && s.data_source.table().schema == schema && s.data_source.table().data == batches),
            r is Err <==> !(forall|b: int| 0 <= b < batches@.len() ==> (#[trigger] batches@[b]).wf()
                && batches@[b].schema@ == schema@),
    {
        let table = MemoryDataSource::new(schema, batches)?;
        let source = Source::Csv(CsvDataSource { path: file_path.clone(), batch_size: self.batch_size, table });
        Ok(DataFrame::new(LogicalPlan::Scan(Scan::new(file_path, source, Vec::new()))))
    }

    /// Optimizes the frame's plan and lowers it to a physical plan.
    pub fn create_physical_plan(&self, df: &DataFrame) -> (r: Result<PhysicalPlan, EngineError>)
        ensures
            match r {
                Ok(p) => plan_error(optimized(df.plan)) is None && lowered(optimized(df.plan), p),
                Err(e) => plan_error(optimized(df.plan)) == Some(e.kind),
            },
    {
        let optimized_plan = Optimizer::optimize(df.logical_plan());
        QueryPlanner::create_physical_plan(optimized_plan)
    }
}

} // verus!
