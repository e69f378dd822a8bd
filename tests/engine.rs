use query_engine::aggregate::Accumulator;
use query_engine::column::{ColumnArray, RecordBatch, ScalarValue as Value};
use query_engine::data_source::{CsvDataSource, MemoryDataSource, Source};
use query_engine::error::ErrorKind;
use query_engine::execution::{DataFrame, ExecutionContext};
use query_engine::logical_expr::Operator;
use query_engine::logical_expr::{col, count, count_distinct, lit, max, min, sum, AggregateFunction, Expr, ScalarValue};
use query_engine::logical_plan::{Aggregate, Plan, Projection, Scan, Selection};
use query_engine::physical_expr::{Column as PhysicalColumn, Expr as PhysicalExpr, ScalarValue as PhysicalScalarValue};
use query_engine::physical_plan::{Plan as PhysicalPlan, ProjectionExec, ScanExec};
use query_engine::planner::QueryPlanner;
use query_engine::schema::{DataType, Field, Schema};

fn field(name: &str, t: DataType) -> Field {
    Field::new(name.to_string(), t)
}

fn int_lit(v: i32) -> Expr {
    lit(ScalarValue::Int32(v))
}

fn float_lit(v: f64) -> Expr {
    lit(ScalarValue::float64(v.to_bits(), v.to_string()))
}

fn memory(schema: Schema, data: Vec<RecordBatch>) -> Source {
    Source::Memory(MemoryDataSource::new(schema, data).unwrap())
}

/// Six columns of assorted types, two batches.
fn get_data_source() -> (String, Source) {
    let schema = Schema::new(vec![
        field("c1", DataType::Int32),
        field("c2", DataType::Int64),
        field("c3", DataType::Utf8),
        field("c4", DataType::Boolean),
        field("c5", DataType::Int32),
        field("c6", DataType::Int64),
    ]);
    let batch = RecordBatch::new(
        schema.clone(),
        vec![
            ColumnArray::Int32(vec![1, 2]),
            ColumnArray::Int64(vec![10, 20]),
            ColumnArray::Utf8(vec!["a".to_string(), "b".to_string()]),
            ColumnArray::Boolean(vec![true, false]),
            ColumnArray::Int32(vec![5, 6]),
            ColumnArray::Int64(vec![7, 8]),
        ],
    )
    .unwrap();
    let path = "data/mixed_fields.csv".to_string();
    (path, memory(schema, vec![batch]))
}

fn primitive_schema() -> Schema {
    Schema::new(vec![
        field("c1", DataType::Int32),
        field("c2", DataType::Int32),
        field("c3", DataType::Int64),
        field("c4", DataType::Int64),
    ])
}

fn primitive_batch(c1: Vec<i32>, c2: Vec<i32>, c3: Vec<i64>, c4: Vec<i64>) -> RecordBatch {
    RecordBatch::new(
        primitive_schema(),
        vec![ColumnArray::Int32(c1), ColumnArray::Int32(c2), ColumnArray::Int64(c3), ColumnArray::Int64(c4)],
    )
    .unwrap()
}

/// The primitive data read in batches of three rows.
fn primitive_batches() -> Vec<RecordBatch> {
    vec![
        primitive_batch(vec![1, 2, 3], vec![10, 20, 30], vec![100, 200, 300], vec![7, 8, 9]),
        primitive_batch(vec![2, 4, 1], vec![40, 50, 60], vec![400, 500, 600], vec![1, 2, 3]),
        primitive_batch(vec![4], vec![70], vec![700], vec![4]),
    ]
}

fn get_primitive_field_data_source() -> (String, Source) {
    let path = "data/primitive_field.csv".to_string();
    let source = Source::Csv(CsvDataSource {
        path: path.clone(),
        batch_size: 3,
        table: MemoryDataSource::new(primitive_schema(), primitive_batches()).unwrap(),
    });
    (path, source)
}

fn boolean_source() -> Source {
    let schema = Schema::new(vec![field("c1", DataType::Boolean)]);
    let batch = RecordBatch::new(schema.clone(), vec![ColumnArray::Boolean(vec![true, false, true])]).unwrap();
    memory(schema, vec![batch])
}

#[test]
fn memory_data_source_test_get_schema() {
    let schema = Schema::new(vec![field("a", DataType::Int32), field("b", DataType::Int32)]);
    let data_source = MemoryDataSource::new(schema.clone(), vec![]).unwrap();
    assert_eq!(data_source.get_schema(), &schema);
}

#[test]
fn memory_data_source_test_scan() {
    let schema = Schema::new(vec![field("id", DataType::Int32)]);
    let records = vec![RecordBatch::new(schema.clone(), vec![ColumnArray::Int32(vec![1, 2, 3, 4, 5])]).unwrap()];
    let data_source = MemoryDataSource::new(schema, records).unwrap();

    // No field is named "a", so each batch comes back without columns.
    let result = data_source.scan(vec!["a"]);
    assert_eq!(result.len(), 1);
    assert_eq!(result[0].fields.len(), 0);

    let result = data_source.scan(vec!["id"]);
    assert_eq!(result.len(), 1);
    assert_eq!(result[0].fields.len(), 1);
    assert_eq!(result[0].fields[0].size(), 5);
    assert_eq!(result[0].fields[0], ColumnArray::Int32(vec![1, 2, 3, 4, 5]));
    assert_eq!(result[0].row_count(), 5);
}

#[test]
fn test_select() {
    let schema = Schema::new(vec![field("id", DataType::Int32), field("name", DataType::Utf8)]);
    let selected_schema = schema.select(vec!["id"]).unwrap();
    assert_eq!(selected_schema.fields.len(), 1);
    assert_eq!(selected_schema.fields[0].name, "id");
}

#[test]
fn select_rejects_missing_and_ambiguous_names() {
    let schema = Schema::new(vec![field("a", DataType::Int32), field("a", DataType::Int64), field("b", DataType::Utf8)]);
    assert_eq!(schema.select(vec!["zzz"]).unwrap_err().kind, ErrorKind::Resolution);
    assert_eq!(schema.select(vec!["a"]).unwrap_err().kind, ErrorKind::Resolution);
    let reordered = schema.select(vec!["b"]).unwrap();
    assert_eq!(reordered.fields, vec![field("b", DataType::Utf8)]);
}

#[test]
fn select_by_own_names_gives_schema_back() {
    let schema = Schema::new(vec![field("x", DataType::Int32), field("y", DataType::Utf8), field("z", DataType::Boolean)]);
    let names: Vec<&str> = schema.fields.iter().map(|f| f.name.as_str()).collect();
    assert_eq!(schema.select(names).unwrap(), schema);
}

#[test]
fn test_add() {
    assert_eq!(std::ops::Add::add(col("a"), col("b")), col("a") + col("b"));
}

#[test]
fn test_not() {
    assert_eq!(std::ops::Not::not(int_lit(1)), !int_lit(1));
}

#[test]
fn test_partial_ord() {
    let exp1 = col("a") + int_lit(1);
    let exp2 = col("a") + int_lit(2);
    let exp3 = !(col("a") + int_lit(2));
    assert!(exp1 < exp2);
    assert!(exp2 > exp1);
    assert!(exp2 > exp3);
    assert!(exp3 < exp2);
    assert!(float_lit(1.2) < float_lit(1.3));
}

#[test]
fn test_column_display() {
    let col = col("a");
    assert_eq!(col.to_string(), "#a");
}

#[test]
fn test_lit_display() {
    let l = int_lit(1);
    assert_eq!(l.to_string(), "1");
    let l = float_lit(1.2);
    assert_eq!(l.to_string(), "1.2");
    let l = lit(ScalarValue::String("a".to_string()));
    assert_eq!(l.to_string(), "a");
}

#[test]
fn test_binary_expr_display() {
    let e = col("a") + int_lit(1);
    assert_eq!(e.to_string(), "#a + 1");
    let e = col("a") - int_lit(1);
    assert_eq!(e.to_string(), "#a - 1");
    let e = col("a") * int_lit(1);
    assert_eq!(e.to_string(), "#a * 1");
    let e = col("a") / int_lit(1);
    assert_eq!(e.to_string(), "#a / 1");
    let e = col("a") % int_lit(1);
    assert_eq!(e.to_string(), "#a % 1");
}

#[test]
fn other_expr_display_forms() {
    assert_eq!(lit(ScalarValue::Int64(-42)).to_string(), "-42");
    assert_eq!(max(col("c1")).to_string(), "MAX(#c1)");
    assert_eq!(count_distinct(col("c1")).to_string(), "COUNT DISTINCT(DISTINCT #c1)");
    assert_eq!(col("a").alias("b".to_string()).to_string(), "#a as b");
    assert_eq!(col("a").eq(int_lit(1)).and(col("b").lt_eq(int_lit(2))).to_string(), "#a = 1 AND #b <= 2");
    assert_eq!(Expr::ColumnIndex(query_engine::logical_expr::ColumnIndex { index: 12 }).to_string(), "#12");
    let cast = Expr::Cast(query_engine::logical_expr::Cast { expr: Box::new(col("a")), data_type: DataType::Int64 });
    assert_eq!(cast.to_string(), "CAST(#a AS Int64)");
}

#[test]
fn test_test_schema() {
    let (path, csv_data_source) = get_data_source();
    let schema = csv_data_source.get_schema().clone();
    let scan_plan = Scan::new(path, csv_data_source, vec![]);
    let exprs = vec![col("c1"), col("c2"), col("c3"), col("c4"), col("c5"), col("c6")];
    let plan = Plan::Projection(Projection::new(Plan::Scan(scan_plan), exprs));
    assert_eq!(plan.schema().unwrap(), schema);
}

#[test]
fn projection_test_children() {
    let (path, csv_data_source) = get_data_source();
    let schema = csv_data_source.get_schema().clone();
    let scan_plan = Scan::new(path, csv_data_source, vec![]);
    let exprs = vec![col("c1"), col("c2"), col("c3"), col("c4"), col("c5"), col("c6")];
    let plan = Plan::Projection(Projection::new(Plan::Scan(scan_plan), exprs));
    assert_eq!(plan.children().len(), 1);
    assert_eq!(plan.children()[0].schema().unwrap(), schema);
}

#[test]
fn test_to_string() {
    let (path, csv_data_source) = get_data_source();
    let scan_plan = Scan::new(path, csv_data_source, vec![]);
    let exprs = vec![col("c1"), col("c2"), col("c3"), col("c4"), col("c5"), col("c6")];
    let plan = Plan::Projection(Projection::new(Plan::Scan(scan_plan), exprs));
    assert_eq!(plan.to_string(), "Projection: #c1,#c2,#c3,#c4,#c5,#c6");
}

#[test]
fn test_schema_without_projection() {
    let (path, csv_data_source) = get_data_source();
    let schema = csv_data_source.get_schema().clone();
    let plan = Plan::Scan(Scan::new(path, csv_data_source, vec![]));
    assert_eq!(plan.schema().unwrap(), schema);
}

#[test]
fn test_schema_with_projection() {
    let (path, csv_data_source) = get_data_source();
    let schema = csv_data_source.get_schema().select(vec!["c1", "c2"]).unwrap();
    let plan = Plan::Scan(Scan::new(path, csv_data_source, vec!["c1".to_string(), "c2".to_string()]));
    assert_eq!(plan.schema().unwrap(), schema);
}

#[test]
fn scan_test_children() {
    let (path, csv_data_source) = get_data_source();
    let plan = Plan::Scan(Scan::new(path, csv_data_source, vec![]));
    assert_eq!(plan.children().len(), 0);
}

#[test]
fn test_to_string_without_projection() {
    let (path, csv_data_source) = get_data_source();
    let plan = Plan::Scan(Scan::new(path.clone(), csv_data_source, vec![]));
    assert_eq!(plan.to_string(), format!("Scan: {}; projection=None", path));
}

#[test]
fn test_to_string_with_projection() {
    let (path, csv_data_source) = get_data_source();
    let plan = Plan::Scan(Scan::new(path.clone(), csv_data_source, vec!["c1".to_string(), "c2".to_string()]));
    assert_eq!(plan.to_string(), format!("Scan: {}; projection=[c1,c2]", path));
}

#[test]
fn selection_test_display() {
    let (path, csv_data_source) = get_primitive_field_data_source();
    let scan_plan = Scan::new(path, csv_data_source, vec![]);
    let plan = Plan::Selection(Selection::new(Plan::Scan(scan_plan), col("c1")));
    assert_eq!(plan.to_string(), "Selection: #c1");
}

#[test]
fn unknown_column_resolution() {
    let (path, csv_data_source) = get_primitive_field_data_source();
    let plan = Plan::Scan(Scan::new(path, csv_data_source, vec![]));
    assert_eq!(col("zzz").to_field(&plan).unwrap_err().kind, ErrorKind::Resolution);
    assert_eq!(col("c3").to_field(&plan).unwrap(), field("c3", DataType::Int64));
    let sum_field = (col("c1") + int_lit(1)).to_field(&plan).unwrap();
    assert_eq!(sum_field, field("add", DataType::Int32));
    let cmp_field = col("c1").gt(int_lit(1)).to_field(&plan).unwrap();
    assert_eq!(cmp_field, field("gt", DataType::Boolean));
}

#[test]
fn test_scan_display() {
    let scan = ScanExec::new(boolean_source(), vec!["c1".to_string()]);
    assert_eq!(scan.to_string(), "ScanExec: projection=c1");
}

#[test]
fn test_projection_execute() {
    let schema = Schema::new(vec![field("c1", DataType::Boolean)]);
    let scan = ScanExec::new(boolean_source(), vec!["c1".to_string()]);
    let projection = PhysicalPlan::Projection(ProjectionExec::new(
        PhysicalPlan::Scan(scan),
        schema,
        vec![PhysicalExpr::Column(PhysicalColumn::new(0))],
    ));
    assert!(projection.execute().is_ok());
    assert_eq!(projection.execute().unwrap().len(), 1);
    assert_eq!(projection.execute().unwrap()[0].field(0).get_value(0), Some(Value::Boolean(true)));
}

#[test]
fn projection_test_display() {
    let schema = Schema::new(vec![field("c1", DataType::Boolean)]);
    let scan = ScanExec::new(boolean_source(), vec!["c1".to_string()]);
    let projection = PhysicalPlan::Projection(ProjectionExec::new(
        PhysicalPlan::Scan(scan),
        schema,
        vec![PhysicalExpr::Column(PhysicalColumn::new(0))],
    ));
    assert_eq!(projection.to_string(), "ProjectionExec: #0");
}

#[test]
fn test_create_physical_plan() {
    let (path, csv_data_source) = get_primitive_field_data_source();
    let scan_plan = Scan::new(path, csv_data_source, vec![]);
    let col1 = col("c1");
    let group_exprs = vec![col1.clone()];
    let aggregate_exprs = vec![max(col1)];
    let agg = Aggregate::new(Plan::Scan(scan_plan), group_exprs, aggregate_exprs);
    let logical_plan = Plan::Aggregate(agg);
    let physical_plan = QueryPlanner::create_physical_plan(&logical_plan);
    assert!(physical_plan.is_ok());
    assert!(matches!(physical_plan.unwrap(), PhysicalPlan::Hash(_)));
}

#[test]
fn test_create_physical_expr() {
    let logical_expr = int_lit(1);
    let (path, csv_data_source) = get_primitive_field_data_source();
    let scan_plan = Scan::new(path, csv_data_source, vec![]);
    let physical_plan = QueryPlanner::create_physical_expr(&logical_expr, &Plan::Scan(scan_plan));
    assert!(physical_plan.is_ok());
    assert!(matches!(physical_plan.unwrap(), PhysicalExpr::Literal(PhysicalScalarValue::Int32(1))));
}

#[test]
fn lowering_binary_expression() {
    let (path, csv_data_source) = get_primitive_field_data_source();
    let plan = Plan::Scan(Scan::new(path, csv_data_source, vec![]));
    let lowered = QueryPlanner::create_physical_expr(&(col("c2") + int_lit(1)), &plan).unwrap();
    let expected = PhysicalExpr::BinaryExpr(query_engine::physical_expr::BinaryExpr::new(
        Operator::Add,
        PhysicalExpr::Column(PhysicalColumn::new(1)),
        PhysicalExpr::Literal(PhysicalScalarValue::Int32(1)),
    ));
    assert_eq!(lowered, expected);
    assert_eq!(QueryPlanner::create_physical_expr(&!col("c1"), &plan).unwrap_err().kind, ErrorKind::Plan);
    assert_eq!(QueryPlanner::create_physical_expr(&col("nope"), &plan).unwrap_err().kind, ErrorKind::Resolution);
}

#[test]
fn column_index_lowers_to_that_column() {
    let (path, csv_data_source) = get_primitive_field_data_source();
    let plan = Plan::Scan(Scan::new(path, csv_data_source, vec![]));
    let e = Expr::ColumnIndex(query_engine::logical_expr::ColumnIndex { index: 2 });
    let lowered = QueryPlanner::create_physical_expr(&e, &plan).unwrap();
    let batch = &primitive_batches()[0];
    assert_eq!(lowered.evaluate(batch).unwrap(), batch.fields[2]);
}

#[test]
fn test_execute_data_frame() {
    let ctx = ExecutionContext::new(3);
    let df = ctx
        .csv("data/primitive_field.csv".to_string(), primitive_schema(), primitive_batches())
        .unwrap()
        .filter(col("c1").eq(int_lit(1)))
        .project(vec![col("c1"), col("c2"), col("c3")]);
    let physical_plan = ctx.create_physical_plan(&df).unwrap();
    let batches = physical_plan.execute();
    assert!(batches.is_ok());
    let batches = batches.unwrap();
    let first = batches.iter().find(|b| b.row_count() > 0).unwrap();
    assert_eq!(first.row_count(), 1);
    assert_eq!(first.column_count(), 3);
    assert_eq!(first.field(0).get_value(0), Some(Value::Int32(1)));
    assert_eq!(batches.iter().map(|b| b.row_count()).sum::<usize>(), 2);
}

#[test]
fn selection_keeps_empty_batches() {
    let (path, csv_data_source) = get_primitive_field_data_source();
    let df = DataFrame::new(Plan::Scan(Scan::new(path, csv_data_source, vec![]))).filter(col("c1").gt(int_lit(100)));
    let plan = QueryPlanner::create_physical_plan(df.logical_plan()).unwrap();
    let batches = plan.execute().unwrap();
    assert_eq!(batches.len(), 3);
    assert!(batches.iter().all(|b| b.row_count() == 0 && b.column_count() == 4));
}

fn aggregate_plan(aggregates: Vec<Expr>) -> PhysicalPlan {
    let (path, csv_data_source) = get_primitive_field_data_source();
    let df = DataFrame::new(Plan::Scan(Scan::new(path, csv_data_source, vec![]))).aggregate(vec![col("c1")], aggregates);
    QueryPlanner::create_physical_plan(df.logical_plan()).unwrap()
}

#[test]
fn aggregate_max_grouped_by_self() {
    let plan = aggregate_plan(vec![max(col("c1"))]);
    let schema = plan.schema().unwrap();
    assert_eq!(schema.fields, vec![field("c1", DataType::Int32), field("max", DataType::Int32)]);
    let batches = plan.execute().unwrap();
    assert_eq!(batches.len(), 1);
    let out = &batches[0];
    assert_eq!(out.fields[0], ColumnArray::Int32(vec![1, 2, 3, 4]));
    for r in 0..out.row_count() {
        assert_eq!(out.field(0).get_value(r), out.field(1).get_value(r));
    }
}

#[test]
fn aggregate_functions_per_group() {
    let plan = aggregate_plan(vec![sum(col("c2")), min(col("c3")), count(col("c4")), count_distinct(col("c1"))]);
    let out = &plan.execute().unwrap()[0];
    assert_eq!(out.fields[0], ColumnArray::Int32(vec![1, 2, 3, 4]));
    assert_eq!(out.fields[1], ColumnArray::Int32(vec![70, 60, 30, 120]));
    assert_eq!(out.fields[2], ColumnArray::Int64(vec![100, 200, 300, 500]));
    assert_eq!(out.fields[3], ColumnArray::Int64(vec![2, 2, 1, 2]));
    assert_eq!(out.fields[4], ColumnArray::Int64(vec![1, 1, 1, 1]));
}

#[test]
fn hash_aggregate_determinism() {
    let first = aggregate_plan(vec![max(col("c3"))]).execute().unwrap();
    let second = aggregate_plan(vec![max(col("c3"))]).execute().unwrap();
    assert_eq!(first, second);
}

#[test]
fn aggregate_errors() {
    let avg_plan = aggregate_plan(vec![query_engine::logical_expr::avg(col("c2"))]);
    assert_eq!(avg_plan.execute().unwrap_err().kind, ErrorKind::Evaluation);
    let (path, csv_data_source) = get_primitive_field_data_source();
    let df = DataFrame::new(Plan::Scan(Scan::new(path, csv_data_source, vec![]))).aggregate(vec![col("c1")], vec![col("c2")]);
    assert_eq!(QueryPlanner::create_physical_plan(df.logical_plan()).unwrap_err().kind, ErrorKind::Plan);
}

#[test]
fn accumulator_steps() {
    let acc = Accumulator::new(AggregateFunction::Sum, DataType::Int32).unwrap();
    let acc = acc.accumulate(&Value::Int32(i32::MAX)).unwrap();
    assert_eq!(acc.accumulate(&Value::Int32(1)).unwrap_err().kind, ErrorKind::Evaluation);
    let acc = Accumulator::new(AggregateFunction::Max, DataType::Utf8).unwrap();
    let acc = acc.accumulate(&Value::String("b".to_string())).unwrap();
    let acc = acc.accumulate(&Value::String("a".to_string())).unwrap();
    assert_eq!(acc.final_value(), Value::String("b".to_string()));
    assert_eq!(Accumulator::new(AggregateFunction::Sum, DataType::Utf8).unwrap_err().kind, ErrorKind::Type);
}

fn eval_on_primitive(e: PhysicalExpr) -> Result<ColumnArray, query_engine::error::EngineError> {
    e.evaluate(&primitive_batches()[0])
}

fn phys_col(i: usize) -> PhysicalExpr {
    PhysicalExpr::Column(PhysicalColumn::new(i))
}

fn phys_bin(op: Operator, l: PhysicalExpr, r: PhysicalExpr) -> PhysicalExpr {
    PhysicalExpr::BinaryExpr(query_engine::physical_expr::BinaryExpr::new(op, l, r))
}

#[test]
fn evaluation_rules() {
    let lit32 = |v: i32| PhysicalExpr::Literal(PhysicalScalarValue::Int32(v));
    assert_eq!(eval_on_primitive(lit32(9)).unwrap(), ColumnArray::Int32(vec![9, 9, 9]));
    assert_eq!(eval_on_primitive(phys_bin(Operator::Multiply, phys_col(0), phys_col(1))).unwrap(), ColumnArray::Int32(vec![10, 40, 90]));
    assert_eq!(eval_on_primitive(phys_bin(Operator::Divide, lit32(-7), lit32(2))).unwrap(), ColumnArray::Int32(vec![-3, -3, -3]));
    assert_eq!(eval_on_primitive(phys_bin(Operator::Modulus, lit32(-7), lit32(2))).unwrap(), ColumnArray::Int32(vec![-1, -1, -1]));
    assert_eq!(eval_on_primitive(phys_bin(Operator::Divide, phys_col(0), lit32(0))).unwrap_err().kind, ErrorKind::Evaluation);
    assert_eq!(eval_on_primitive(phys_bin(Operator::Add, phys_col(0), phys_col(2))).unwrap_err().kind, ErrorKind::Type);
    assert_eq!(eval_on_primitive(phys_bin(Operator::GtEq, phys_col(0), lit32(2))).unwrap(), ColumnArray::Boolean(vec![false, true, true]));
    assert_eq!(eval_on_primitive(phys_col(7)).unwrap_err().kind, ErrorKind::Invariant);
    let cast = PhysicalExpr::Cast(query_engine::physical_expr::Cast::new(phys_col(0), DataType::Utf8));
    assert_eq!(eval_on_primitive(cast).unwrap(), ColumnArray::Utf8(vec!["1".to_string(), "2".to_string(), "3".to_string()]));
    let back = PhysicalExpr::Literal(PhysicalScalarValue::String("-12".to_string()));
    let cast = PhysicalExpr::Cast(query_engine::physical_expr::Cast::new(back, DataType::Int64));
    assert_eq!(eval_on_primitive(cast).unwrap(), ColumnArray::Int64(vec![-12, -12, -12]));
    let bad = PhysicalExpr::Literal(PhysicalScalarValue::String("x1".to_string()));
    let cast = PhysicalExpr::Cast(query_engine::physical_expr::Cast::new(bad, DataType::Int32));
    assert_eq!(eval_on_primitive(cast).unwrap_err().kind, ErrorKind::Evaluation);
    let cast = PhysicalExpr::Cast(query_engine::physical_expr::Cast::new(phys_col(0), DataType::Boolean));
    assert_eq!(eval_on_primitive(cast).unwrap_err().kind, ErrorKind::Type);
    let strs = |s: &str| PhysicalExpr::Literal(PhysicalScalarValue::String(s.to_string()));
    assert_eq!(eval_on_primitive(phys_bin(Operator::Lt, strs("ab"), strs("b"))).unwrap(), ColumnArray::Boolean(vec![true, true, true]));
}

#[test]
fn csv_rejects_malformed_batches() {
    let ctx = ExecutionContext::new(3);
    let wrong = RecordBatch::new(Schema::new(vec![field("x", DataType::Int32)]), vec![ColumnArray::Int32(vec![1])]).unwrap();
    assert_eq!(ctx.csv("f.csv".to_string(), primitive_schema(), vec![wrong]).unwrap_err().kind, ErrorKind::Invariant);
    let short = RecordBatch::new(primitive_schema(), vec![ColumnArray::Int32(vec![1])]);
    assert_eq!(short.unwrap_err().kind, ErrorKind::Invariant);
}

#[test]
fn physical_display_and_checks() {
    let f = PhysicalExpr::Literal(PhysicalScalarValue::Float64(4607182418800017408));
    assert_eq!(f.to_string(), "f64:4607182418800017408");
    let e = phys_bin(Operator::Gt, phys_col(3), PhysicalExpr::Literal(PhysicalScalarValue::Int64(-5)));
    assert_eq!(e.to_string(), "#3 > -5");
    let plan = aggregate_plan(vec![max(col("c1"))]);
    assert!(plan.is_well_formed());
    assert_eq!(plan.to_string(), "HashAggregateExec: groupExpr=#0");
    let err = query_engine::error::EngineError::new(ErrorKind::Plan, "bad");
    assert_eq!(err.describe(), "plan error: bad");
}

#[test]
fn aggregate_over_no_rows() {
    let source = memory(primitive_schema(), vec![]);
    let df = DataFrame::new(Plan::Scan(Scan::new("empty.csv".to_string(), source, vec![])))
        .aggregate(vec![col("c1")], vec![count(col("c2"))]);
    let plan = QueryPlanner::create_physical_plan(df.logical_plan()).unwrap();
    let batches = plan.execute().unwrap();
    assert_eq!(batches.len(), 1);
    assert_eq!(batches[0].row_count(), 0);
    assert_eq!(batches[0].fields, vec![ColumnArray::Int32(vec![]), ColumnArray::Int32(vec![])]);
}

#[test]
fn scan_with_projection_and_text_keys() {
    let (path, source) = get_data_source();
    let df = DataFrame::new(Plan::Scan(Scan::new(path, source, vec!["c3".to_string(), "c1".to_string()])))
        .aggregate(vec![col("c3")], vec![sum(col("c1"))]);
    let plan = QueryPlanner::create_physical_plan(df.logical_plan()).unwrap();
    let out = &plan.execute().unwrap()[0];
    assert_eq!(out.fields[0], ColumnArray::Utf8(vec!["a".to_string(), "b".to_string()]));
    assert_eq!(out.fields[1], ColumnArray::Int32(vec![1, 2]));
}

fn plan_with_bad_projection() -> Plan {
    let (path, source) = get_primitive_field_data_source();
    Plan::Scan(Scan::new(path, source, vec!["missing".to_string()]))
}

#[test]
fn constants_resolve_over_any_input() {
    let bad = plan_with_bad_projection();
    assert_eq!(bad.schema().unwrap_err().kind, ErrorKind::Resolution);
    assert_eq!(int_lit(7).to_field(&bad).unwrap(), field("7", DataType::Int32));
    assert_eq!(int_lit(1).eq(int_lit(1)).to_field(&bad).unwrap(), field("eq", DataType::Boolean));
    assert_eq!(col("c1").to_field(&bad).unwrap_err().kind, ErrorKind::Resolution);
    let lowered = QueryPlanner::create_physical_expr(&int_lit(1), &bad).unwrap();
    assert_eq!(lowered, PhysicalExpr::Literal(PhysicalScalarValue::Int32(1)));
    assert_eq!(QueryPlanner::create_physical_expr(&!int_lit(1), &bad).unwrap_err().kind, ErrorKind::Plan);
    assert_eq!(QueryPlanner::create_physical_expr(&col("c1"), &bad).unwrap_err().kind, ErrorKind::Resolution);
}

#[test]
fn selection_predicate_must_be_boolean() {
    let (path, source) = get_primitive_field_data_source();
    let df = DataFrame::new(Plan::Scan(Scan::new(path, source, vec![]))).filter(col("c1"));
    assert_eq!(QueryPlanner::create_physical_plan(df.logical_plan()).unwrap_err().kind, ErrorKind::Type);
}

#[test]
fn scan_takes_first_of_repeated_names() {
    let schema = Schema::new(vec![field("a", DataType::Int32), field("a", DataType::Int64)]);
    let batch = RecordBatch::new(schema.clone(), vec![ColumnArray::Int32(vec![1]), ColumnArray::Int64(vec![2])]).unwrap();
    let source = MemoryDataSource::new(schema, vec![batch]).unwrap();
    let out = source.scan(vec!["a", "zzz"]);
    assert_eq!(out[0].fields, vec![ColumnArray::Int32(vec![1])]);
}

#[test]
fn float_constants_follow_float_order() {
    assert!(float_lit(-1.0) < float_lit(1.0));
    assert!(float_lit(-2.0) < float_lit(-1.0));
    let (path, source) = get_primitive_field_data_source();
    let plan = Plan::Scan(Scan::new(path, source, vec![]));
    let lowered = QueryPlanner::create_physical_expr(&float_lit(-2.5), &plan).unwrap();
    assert_eq!(lowered, PhysicalExpr::Literal(PhysicalScalarValue::Float64((-2.5f64).to_bits())));
}

#[test]
fn csv_frame_carries_batch_size() {
    let ctx = ExecutionContext::new(3);
    let df = ctx.csv("p.csv".to_string(), primitive_schema(), primitive_batches()).unwrap();
    match df.logical_plan() {
        Plan::Scan(s) => match &s.data_source {
            Source::Csv(c) => assert_eq!(c.batch_size, 3),
            _ => panic!("not a delimited-text source"),
        },
        _ => panic!("not a scan"),
    }
}
