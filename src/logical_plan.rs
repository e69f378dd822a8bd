use vstd::prelude::*;
use vstd::string::*;

use crate::data_source::Source;
use crate::error::{same_outcome, schema_model, EngineError, ErrorKind};
use crate::logical_expr::{expr_text, resolve, Expr};
use crate::schema::{select_spec, Field, FieldView, Schema};

verus! {

/// Reads a data source, optionally keeping only the named columns.
#[derive(Debug, Clone)]
pub struct Scan {
    pub path: String,
    pub data_source: Source,
    pub projection: Vec<String>,
}

/// Computes one output column per expression.
#[derive(Debug)]
pub struct Projection {
    pub input: Box<Plan>,
    pub exprs: Vec<Expr>,
}

/// Keeps the rows on which a predicate holds.
#[derive(Debug)]
pub struct Selection {
    pub input: Box<Plan>,
    pub expr: Expr,
}

/// Groups rows by the group expressions and computes the aggregates per group.
#[derive(Debug)]
pub struct Aggregate {
    pub input: Box<Plan>,
    pub group_exprs: Vec<Expr>,
    pub aggregate_exprs: Vec<Expr>,
}

/// A logical query plan.
#[derive(Debug)]
pub enum Plan {
    Scan(Scan),
    Projection(Projection),
    Selection(Selection),
    Aggregate(Aggregate),
}

impl Clone for Plan {
    fn clone(&self) -> Self
        decreases self,
    {
        match self {
            Plan::Scan(scan) => Plan::Scan(scan.clone()),
            Plan::Projection(proj) => Plan::Projection(Projection {
                input: Box::new((*proj.input).clone()),
                exprs: proj.exprs.clone(),
            }),
            Plan::Selection(sel) => Plan::Selection(Selection {
                input: Box::new((*sel.input).clone()),
                expr: sel.expr.clone(),
            }),
            Plan::Aggregate(agg) => Plan::Aggregate(Aggregate {
                input: Box::new((*agg.input).clone()),
                group_exprs: agg.group_exprs.clone(),
                aggregate_exprs: agg.aggregate_exprs.clone(),
            }),
        }
    }
}

/// The fields that `exprs` resolve to against `s`, or the first failure.
pub open spec fn resolve_all(exprs: Seq<Expr>, s: Seq<FieldView>) -> Result<Seq<FieldView>, ErrorKind>
    decreases exprs.len(),
{
    if exprs.len() == 0 {
        Ok(Seq::empty())
    } else {
        match resolve_all(exprs.drop_last(), s) {
            Err(k) => Err(k),
            Ok(fs) => match resolve(exprs.last(), Ok(s)) {
                Err(k) => Err(k),
                Ok(f) => Ok(fs.push(f)),
            },
        }
    }
}

/// The schema of a scan: the source's, or the selected fields.
pub open spec fn scan_schema(scan: Scan) -> Result<Seq<FieldView>, ErrorKind> {
    let full = scan.data_source.table().schema@;
    if scan.projection@.len() == 0 {
        Ok(full)
    } else {
        match select_spec(full, scan.projection@.map_values(|n: String| n@)) {
            Some(s) => Ok(s),
            None => Err(ErrorKind::Resolution),
        }
    }
}

/// The output schema of a plan, a function of its children and expressions.
pub open spec fn plan_schema(p: Plan) -> Result<Seq<FieldView>, ErrorKind>
    decreases p,
{
    match p {
        Plan::Scan(scan) => scan_schema(scan),
        Plan::Projection(proj) => match plan_schema(*proj.input) {
            Ok(s) => resolve_all(proj.exprs@, s),
            Err(k) => Err(k),
        },
        Plan::Selection(sel) => plan_schema(*sel.input),
        Plan::Aggregate(agg) => match plan_schema(*agg.input) {
            Ok(s) => match resolve_all(agg.group_exprs@, s) {
                Ok(g) => match resolve_all(agg.aggregate_exprs@, s) {
                    Ok(a) => Ok(g + a),
                    Err(k) => Err(k),
                },
                Err(k) => Err(k),
            },
            Err(k) => Err(k),
        },
    }
}

/// The children of a plan: none for a scan, the input otherwise.
pub open spec fn plan_children(p: Plan) -> Seq<Plan> {
    match p {
        Plan::Scan(_) => Seq::empty(),
        Plan::Projection(proj) => seq![*proj.input],
        Plan::Selection(sel) => seq![*sel.input],
        Plan::Aggregate(agg) => seq![*agg.input],
    }
}

/// The schema a plan resolves its own expressions against.
pub open spec fn input_schema(p: Plan) -> Result<Seq<FieldView>, ErrorKind> {
    match p {
        Plan::Scan(scan) => Ok(scan.data_source.table().schema@),
        Plan::Projection(proj) => plan_schema(*proj.input),
        Plan::Selection(sel) => plan_schema(*sel.input),
        Plan::Aggregate(agg) => plan_schema(*agg.input),
    }
}

/// The printed forms of the first `k` expressions, separated by `,`.
pub open spec fn exprs_text(exprs: Seq<Expr>, k: nat) -> Seq<char>
    decreases k,
{
    if k == 0 || k > exprs.len() {
        Seq::empty()
    } else if k == 1 {
        expr_text(exprs[0])
    } else {
        exprs_text(exprs, (k - 1) as nat) + ","@ + expr_text(exprs[k - 1])
    }
}

/// The first `k` names, separated by `,`.
pub open spec fn names_text(names: Seq<String>, k: nat) -> Seq<char>
    decreases k,
{
    if k == 0 || k > names.len() {
        Seq::empty()
    } else if k == 1 {
        names[0]@
    } else {
        names_text(names, (k - 1) as nat) + ","@ + names[k - 1]@
    }
}

/// The one-line description of a plan node.
pub open spec fn plan_text(p: Plan) -> Seq<char> {
    match p {
        Plan::Scan(scan) => if scan.projection@.len() == 0 {
            "Scan: "@ + scan.path@ + "; projection=None"@
        } else {
            "Scan: "@ + scan.path@ + "; projection=["@ + names_text(scan.projection@, scan.projection@.len() as nat) + "]"@
        },
        Plan::Projection(proj) => "Projection: "@ + exprs_text(proj.exprs@, proj.exprs@.len() as nat),
        Plan::Selection(sel) => "Selection: "@ + expr_text(sel.expr),
        Plan::Aggregate(agg) => "Aggregate: groupExpr="@ + exprs_text(agg.group_exprs@, agg.group_exprs@.len() as nat)
            + ", aggregateExpr="@ + exprs_text(agg.aggregate_exprs@, agg.aggregate_exprs@.len() as nat),
    }
}

fn join_exprs(exprs: &Vec<Expr>) -> (r: String)
    ensures
        r@ == exprs_text(exprs@, exprs@.len() as nat),
{
    let mut s = String::new();
    let mut k: usize = 0;
    while k < exprs.len()
        invariant
            k <= exprs.len(),
            s@ == exprs_text(exprs@, k as nat),
        decreases exprs.len() - k,
    {
        if k > 0 {
            s.append(",");
        }
        let t = exprs[k].to_string();
        s.append(t.as_str());
        k = k + 1;
    }
    s
}

fn join_names(names: &Vec<String>) -> (r: String)
    ensures
        r@ == names_text(names@, names@.len() as nat),
{
    let mut s = String::new();
    let mut k: usize = 0;
    while k < names.len()
        invariant
            k <= names.len(),
            s@ == names_text(names@, k as nat),
        decreases names.len() - k,
    {
        if k > 0 {
            s.append(",");
        }
        s.append(names[k].as_str());
        k = k + 1;
    }
    s
}

/// Resolves every expression against `schema`, stopping at the first failure.
pub fn resolve_exprs(exprs: &Vec<Expr>, schema: &Schema) -> (r: Result<Vec<Field>, EngineError>)
    ensures
        match (r, resolve_all(exprs@, schema@)) {
            (Ok(fs), Ok(m)) => fs@.map_values(|f: Field| f@) == m,
            (Err(e), Err(k)) => e.kind == k,
            _ => false,
        },
{
    let input: Result<Schema, EngineError> = Ok(schema.clone());
    let mut out: Vec<Field> = Vec::new();
    let mut k: usize = 0;
    while k < exprs.len()
        invariant
            k <= exprs.len(),
            schema_model(input) == Ok::<Seq<FieldView>, ErrorKind>(schema@),
            resolve_all(exprs@.take(k as int), schema@) matches Ok(m) && out@.map_values(|f: Field| f@) == m,
        decreases exprs.len() - k,
    {
        proof {
            assert(exprs@.take(k + 1).drop_last() =~= exprs@.take(k as int));
        }
        match exprs[k].resolve_in(&input) {
            Ok(f) => {
                out.push(f);
                proof {
                    let m = resolve_all(exprs@.take(k as int), schema@)->Ok_0;
                    assert(out@.map_values(|f: Field| f@) =~= m.push(f@));
                }
            },
            Err(e) => {
                proof {
                    assert(exprs@.take(k + 1).last() == exprs@[k as int]);
                    lemma_resolve_all_prefix_err(exprs@, schema@, (k + 1) as int);
                }
                return Err(e);
            },
        }
        k = k + 1;
    }
    proof {
        assert(exprs@.take(k as int) =~= exprs@);
    }
    Ok(out)
}

/// A failure on a prefix is the failure of the whole sequence.
pub proof fn lemma_resolve_all_prefix_err(exprs: Seq<Expr>, s: Seq<FieldView>, n: int)
    requires
        0 <= n <= exprs.len(),
        resolve_all(exprs.take(n), s) is Err,
    ensures
        resolve_all(exprs, s) == resolve_all(exprs.take(n), s),
    decreases exprs.len() - n,
{
    if n < exprs.len() {
        assert(exprs.take(n + 1).drop_last() =~= exprs.take(n));
        lemma_resolve_all_prefix_err(exprs, s, n + 1);
    } else {
        assert(exprs.take(n) =~= exprs);
    }
}

impl Plan {
    /// The output schema. A projection or aggregate fails when one of its
    /// expressions does not resolve; a scan fails when its projection names
    /// a missing or ambiguous field.
    pub fn schema(&self) -> (r: Result<Schema, EngineError>)
        ensures
            same_outcome(r, plan_schema(*self)),
        decreases self,
    {
        match self {
            Plan::Scan(scan) => {
                let full = scan.data_source.get_schema();
                if scan.projection.len() == 0 {
                    Ok(full.clone())
                } else {
                    let mut names: Vec<&str> = Vec::new();
                    let mut k: usize = 0;
                    while k < scan.projection.len()
                        invariant
                            k <= scan.projection.len(),
                            names@.len() == k,
                            forall|i: int| 0 <= i < k ==> (#[trigger] names@[i])@ == scan.projection@[i]@,
                        decreases scan.projection.len() - k,
                    {
                        names.push(scan.projection[k].as_str());
                        k = k + 1;
                    }
                    proof {
                        assert(names@.map_values(|n: &str| n@) =~= scan.projection@.map_values(|n: String| n@));
                    }
                    full.select(names)
                }
            },
            Plan::Projection(proj) => {
                let input = proj.input.schema()?;
                let fields = resolve_exprs(&proj.exprs, &input)?;
                Ok(Schema::new(fields))
            },
            Plan::Selection(sel) => sel.input.schema(),
            Plan::Aggregate(agg) => {
                let input = agg.input.schema()?;
                let mut fields = resolve_exprs(&agg.group_exprs, &input)?;
                let mut more = resolve_exprs(&agg.aggregate_exprs, &input)?;
                let ghost g = fields@;
                let ghost a = more@;
                fields.append(&mut more);
                proof {
                    assert(fields@.map_values(|f: Field| f@) =~= g.map_values(|f: Field| f@) + a.map_values(|f: Field| f@));
                }
                Ok(Schema::new(fields))
            },
        }
    }

    /// The plan's children: none for a scan, the input otherwise.
    pub fn children(&self) -> (r: Vec<&Plan>)
        ensures
            r@.len() == plan_children(*self).len(),
            forall|i: int| 0 <= i < r@.len() ==> *r@[i] == plan_children(*self)[i],
    {
        match self {
            Plan::Scan(_) => Vec::new(),
            Plan::Projection(proj) => vec![&*proj.input],
            Plan::Selection(sel) => vec![&*sel.input],
            Plan::Aggregate(agg) => vec![&*agg.input],
        }
    }

    /// The one-line description of the plan's root node.
    pub fn to_string(&self) -> (r: String)
        ensures
            r@ == plan_text(*self),
    {
        match self {
            Plan::Scan(scan) => {
                let s = String::from_str("Scan: ").concat(scan.path.as_str());
                if scan.projection.len() == 0 {
                    s.concat("; projection=None")
                } else {
                    s.concat("; projection=[").concat(join_names(&scan.projection).as_str()).concat("]")
                }
            },
            Plan::Projection(proj) => String::from_str("Projection: ").concat(join_exprs(&proj.exprs).as_str()),
            Plan::Selection(sel) => String::from_str("Selection: ").concat(sel.expr.to_string().as_str()),
            Plan::Aggregate(agg) => {
                let s = String::from_str("Aggregate: groupExpr=").concat(join_exprs(&agg.group_exprs).as_str());
                s.concat(", aggregateExpr=").concat(join_exprs(&agg.aggregate_exprs).as_str())
            },
        }
    }
}

/// Each child's schema is the schema its parent resolves its expressions
/// against, and the parent's schema is built from it.
pub proof fn child_schema_feeds_parent(p: Plan)
    ensures
        forall|i: int| 0 <= i < plan_children(p).len() ==> plan_schema(#[trigger] plan_children(p)[i]) == input_schema(p),
        p is Selection ==> plan_schema(p) == plan_schema(plan_children(p)[0]),
        p is Projection ==> plan_schema(p) == match plan_schema(plan_children(p)[0]) {
            Ok(s) => resolve_all(p->Projection_0.exprs@, s),
            Err(k) => Err(k),
        },
{
}

/// An expression that resolves to a field over the output of a plan.
pub trait LogicalExpr {
    fn to_field(&self, input: &Plan) -> Result<Field, EngineError>;
}

impl LogicalExpr for Expr {
    fn to_field(&self, input: &Plan) -> Result<Field, EngineError> {
        Expr::to_field(self, input)
    }
}

impl Expr {
    /// The field this expression produces over the output of `input`. Only
    /// column references depend on the input's schema resolving.
    pub fn to_field(&self, input: &Plan) -> (r: Result<Field, EngineError>)
        ensures
            same_outcome(r, resolve(*self, plan_schema(*input))),
    {
        let schema = input.schema();
        proof {
            assert(schema_model(schema) == plan_schema(*input));
        }
        self.resolve_in(&schema)
    }
}

impl Scan {
    pub fn new(path: String, data_source: Source, projection: Vec<String>) -> (r: Scan)
        ensures
            r.path == path,
            r.data_source == data_source,
            r.projection == projection,
    {
        Scan { path, data_source, projection }
    }
}

impl Projection {
    pub fn new(input: Plan, exprs: Vec<Expr>) -> (r: Projection)
        ensures
            *r.input == input,
            r.exprs == exprs,
    {
        Projection { input: Box::new(input), exprs }
    }
}

impl Selection {
    pub fn new(input: Plan, expr: Expr) -> (r: Selection)
        ensures
            *r.input == input,
            r.expr == expr,
    {
        Selection { input: Box::new(input), expr }
    }
}

impl Aggregate {
    pub fn new(input: Plan, group_exprs: Vec<Expr>, aggregate_exprs: Vec<Expr>) -> (r: Aggregate)
        ensures
            *r.input == input,
            r.group_exprs == group_exprs,
            r.aggregate_exprs == aggregate_exprs,
    {
        Aggregate { input: Box::new(input), group_exprs, aggregate_exprs }
    }
}

} // verus!
