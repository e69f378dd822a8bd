use vstd::prelude::*;

use crate::column::{batch_view, datum_type, ColumnArray, ColumnView, Datum, RecordBatch, ScalarValue};
use crate::error::{EngineError, ErrorKind};
use crate::logical_expr::{AggregateFunction, Operator};
use crate::physical_expr::{binary_datum, binary_value, column_from_values, eval_all, evaluate_all, is_float, Expr};
use crate::schema::{DataType, FieldView, Schema};

verus! {

/// An aggregate function applied to the values of an expression.
#[derive(Debug)]
pub struct AggregateExpr {
    pub expr: Expr,
    pub fun: AggregateFunction,
}

impl AggregateExpr {
    pub fn new(expr: Expr, fun: AggregateFunction) -> (r: AggregateExpr)
        ensures
            r.expr == expr,
            r.fun == fun,
    {
        AggregateExpr { expr, fun }
    }
}

/// The state of one accumulator as seen by contracts.
pub enum Acc {
    Sum(Datum),
    Min(Option<Datum>),
    Max(Option<Datum>),
    Count(int),
    Distinct(Seq<Datum>),
}

/// A fresh accumulator of `fun` for values of type `t`.
pub open spec fn init_acc(fun: AggregateFunction, t: DataType) -> Result<Acc, ErrorKind> {
    match fun {
        AggregateFunction::Sum => if t == DataType::Int32 {
            Ok(Acc::Sum(Datum::Int32(0)))
        } else if t == DataType::Int64 {
            Ok(Acc::Sum(Datum::Int64(0)))
        } else if is_float(t) {
            Err(ErrorKind::Evaluation)
        } else {
            Err(ErrorKind::Type)
        },
        AggregateFunction::Min => if is_float(t) { Err(ErrorKind::Evaluation) } else { Ok(Acc::Min(None)) },
        AggregateFunction::Max => if is_float(t) { Err(ErrorKind::Evaluation) } else { Ok(Acc::Max(None)) },
        AggregateFunction::Avg => Err(ErrorKind::Evaluation),
        AggregateFunction::Count => Ok(Acc::Count(0)),
        AggregateFunction::CountDistinct => Ok(Acc::Distinct(Seq::empty())),
    }
}

/// An accumulator after taking in `v`.
pub open spec fn acc_step(a: Acc, v: Datum) -> Result<Acc, ErrorKind> {
    match a {
        Acc::Sum(s) => match binary_datum(Operator::Add, s, v) {
            Some(x) => Ok(Acc::Sum(x)),
            None => Err(ErrorKind::Evaluation),
        },
        Acc::Min(None) => Ok(Acc::Min(Some(v))),
        Acc::Min(Some(m)) => match binary_datum(Operator::Lt, v, m) {
            Some(Datum::Boolean(b)) => Ok(Acc::Min(Some(if b { v } else { m }))),
            _ => Err(ErrorKind::Evaluation),
        },
        Acc::Max(None) => Ok(Acc::Max(Some(v))),
        Acc::Max(Some(m)) => match binary_datum(Operator::Gt, v, m) {
            Some(Datum::Boolean(b)) => Ok(Acc::Max(Some(if b { v } else { m }))),
            _ => Err(ErrorKind::Evaluation),
        },
        Acc::Count(n) => if n < i64::MAX { Ok(Acc::Count(n + 1)) } else { Err(ErrorKind::Evaluation) },
        Acc::Distinct(s) => if s.contains(v) {
            Ok(Acc::Distinct(s))
        } else if s.len() < i64::MAX {
            Ok(Acc::Distinct(s.push(v)))
        } else {
            Err(ErrorKind::Evaluation)
        },
    }
}

/// The final value of an accumulator.
pub open spec fn acc_final(a: Acc) -> Datum {
    match a {
        Acc::Sum(s) => s,
        Acc::Min(Some(m)) => m,
        Acc::Max(Some(m)) => m,
        Acc::Count(n) => Datum::Int64(n as i64),
        Acc::Distinct(s) => Datum::Int64(s.len() as i64),
        _ => Datum::Int64(0),
    }
}

/// Fresh accumulators, one per function, typed by the row's values.
pub open spec fn init_accs(funs: Seq<AggregateFunction>, args: Seq<Datum>) -> Result<Seq<Acc>, ErrorKind>
    decreases funs.len(),
{
    if funs.len() == 0 {
        Ok(Seq::empty())
    } else {
        match init_accs(funs.drop_last(), args) {
            Err(k) => Err(k),
            Ok(s) => match init_acc(funs.last(), datum_type(args[funs.len() - 1])) {
                Err(k) => Err(k),
                Ok(a) => Ok(s.push(a)),
            },
        }
    }
}

/// Every accumulator takes in its value of the row.
pub open spec fn step_accs(accs: Seq<Acc>, args: Seq<Datum>) -> Result<Seq<Acc>, ErrorKind>
    decreases accs.len(),
{
    if accs.len() == 0 {
        Ok(Seq::empty())
    } else {
        match step_accs(accs.drop_last(), args) {
            Err(k) => Err(k),
            Ok(s) => match acc_step(accs.last(), args[accs.len() - 1]) {
                Err(k) => Err(k),
                Ok(a) => Ok(s.push(a)),
            },
        }
    }
}

/// The table of groups: each key with its accumulators, in order of first appearance.
pub type GroupsView = Seq<(Seq<Datum>, Seq<Acc>)>;

/// The position of the group with `key`, if any.
pub open spec fn key_pos(st: GroupsView, key: Seq<Datum>) -> Option<int>
    decreases st.len(),
{
    if st.len() == 0 {
        None
    } else {
        match key_pos(st.drop_last(), key) {
            Some(i) => Some(i),
            None => if st.last().0 == key { Some(st.len() - 1) } else { None },
        }
    }
}

/// The table after one row with group key `key` and aggregate inputs `args`.
pub open spec fn group_step(st: GroupsView, funs: Seq<AggregateFunction>, key: Seq<Datum>, args: Seq<Datum>) -> Result<GroupsView, ErrorKind> {
    match key_pos(st, key) {
        Some(i) => match step_accs(st[i].1, args) {
            Ok(a) => Ok(st.update(i, (key, a))),
            Err(k) => Err(k),
        },
        None => match init_accs(funs, args) {
            Err(k) => Err(k),
            Ok(a0) => match step_accs(a0, args) {
                Ok(a) => Ok(st.push((key, a))),
                Err(k) => Err(k),
            },
        },
    }
}

/// The values of row `r` across columns `cols`.
pub open spec fn row_of(cols: Seq<ColumnView>, r: int) -> Seq<Datum> {
    cols.map_values(|c: ColumnView| c.1[r])
}

/// The table after the first `r` rows of key columns `g` and input columns `a`.
pub open spec fn fold_rows(st: GroupsView, funs: Seq<AggregateFunction>, g: Seq<ColumnView>, a: Seq<ColumnView>, r: nat) -> Result<GroupsView, ErrorKind>
    decreases r,
{
    if r == 0 {
        Ok(st)
    } else {
        match fold_rows(st, funs, g, a, (r - 1) as nat) {
            Err(k) => Err(k),
            Ok(s) => group_step(s, funs, row_of(g, r - 1), row_of(a, r - 1)),
        }
    }
}

/// The table after one batch: evaluate the key and input expressions, then take in each row.
pub open spec fn fold_batch(st: GroupsView, groups: Seq<Expr>, inputs: Seq<Expr>, funs: Seq<AggregateFunction>, b: (Seq<ColumnView>, nat)) -> Result<GroupsView, ErrorKind> {
    match eval_all(groups, b.0, b.1) {
        Err(k) => Err(k),
        Ok(g) => match eval_all(inputs, b.0, b.1) {
            Err(k) => Err(k),
            Ok(a) => fold_rows(st, funs, g, a, b.1),
        },
    }
}

/// The table after the first `k` batches.
pub open spec fn fold_batches(groups: Seq<Expr>, inputs: Seq<Expr>, funs: Seq<AggregateFunction>, bs: Seq<(Seq<ColumnView>, nat)>, k: nat) -> Result<GroupsView, ErrorKind>
    decreases k,
{
    if k == 0 {
        Ok(Seq::empty())
    } else {
        match fold_batches(groups, inputs, funs, bs, (k - 1) as nat) {
            Err(e) => Err(e),
            Ok(st) => fold_batch(st, groups, inputs, funs, bs[k - 1]),
        }
    }
}

/// An output column: the values, typed by themselves, or by `t` when there are none.
pub open spec fn out_column(vals: Seq<Datum>, t: DataType) -> Result<ColumnView, ErrorKind> {
    if vals.len() == 0 {
        Ok((t, vals))
    } else if forall|i: int| 0 <= i < vals.len() ==> datum_type(#[trigger] vals[i]) == datum_type(vals[0]) {
        Ok((datum_type(vals[0]), vals))
    } else {
        Err(ErrorKind::Invariant)
    }
}

/// The values of column `c` of the output: key `c` for `c < ng`, else the
/// final value of accumulator `c - ng`.
pub open spec fn out_values(st: GroupsView, ng: nat, c: int) -> Seq<Datum> {
    if c < ng {
        st.map_values(|s: (Seq<Datum>, Seq<Acc>)| s.0[c])
    } else {
        st.map_values(|s: (Seq<Datum>, Seq<Acc>)| acc_final(s.1[c - ng]))
    }
}

/// The first `k` output columns, or the first failure.
pub open spec fn out_columns(st: GroupsView, ng: nat, schema: Seq<FieldView>, k: nat) -> Result<Seq<ColumnView>, ErrorKind>
    decreases k,
{
    if k == 0 {
        Ok(Seq::empty())
    } else {
        match out_columns(st, ng, schema, (k - 1) as nat) {
            Err(e) => Err(e),
            Ok(cs) => match out_column(out_values(st, ng, k - 1), schema[k - 1].1) {
                Err(e) => Err(e),
                Ok(c) => Ok(cs.push(c)),
            },
        }
    }
}

/// The single output batch of a hash aggregation over batches `bs`: one row
/// per distinct group key in order of first appearance, the key columns
/// followed by one column per aggregate.
pub open spec fn aggregate_model(groups: Seq<Expr>, inputs: Seq<Expr>, funs: Seq<AggregateFunction>, schema: Seq<FieldView>, bs: Seq<(Seq<ColumnView>, nat)>) -> Result<(Seq<ColumnView>, nat), ErrorKind> {
    match fold_batches(groups, inputs, funs, bs, bs.len()) {
        Err(e) => Err(e),
        Ok(st) => match out_columns(st, groups.len(), schema, schema.len()) {
            Err(e) => Err(e),
            Ok(cs) => Ok((cs, st.len())),
        },
    }
}

/// Batches as seen by contracts: their columns and row counts.
pub open spec fn batches_view(bs: Seq<RecordBatch>) -> Seq<(Seq<ColumnView>, nat)> {
    bs.map_values(|b: RecordBatch| (batch_view(b), b.num_rows as nat))
}

pub open spec fn values_view(v: Seq<ScalarValue>) -> Seq<Datum> {
    v.map_values(|x: ScalarValue| x@)
}

pub open spec fn option_view(o: Option<ScalarValue>) -> Option<Datum> {
    match o {
        Some(x) => Some(x@),
        None => None,
    }
}

/// The running state of one aggregate function within one group.
#[derive(Debug)]
pub enum Accumulator {
    Sum(ScalarValue),
    Min(Option<ScalarValue>),
    Max(Option<ScalarValue>),
    Count(i64),
    Distinct(Vec<ScalarValue>),
}

impl View for Accumulator {
    type V = Acc;

    open spec fn view(&self) -> Acc {
        match self {
            Accumulator::Sum(s) => Acc::Sum(s@),
            Accumulator::Min(o) => Acc::Min(option_view(*o)),
            Accumulator::Max(o) => Acc::Max(option_view(*o)),
            Accumulator::Count(n) => Acc::Count(*n as int),
            Accumulator::Distinct(v) => Acc::Distinct(values_view(v@)),
        }
    }
}

pub open spec fn accs_view(a: Seq<Accumulator>) -> Seq<Acc> {
    a.map_values(|x: Accumulator| x@)
}

fn copy_values(v: &Vec<ScalarValue>) -> (r: Vec<ScalarValue>)
    ensures
        values_view(r@) == values_view(v@),
{
    let r = v.clone();
    proof {
        assert forall|i: int| 0 <= i < r@.len() implies r@[i] == v@[i] by {
            assert(cloned::<ScalarValue>(v[i], r[i]));
        }
        assert(values_view(r@) =~= values_view(v@));
    }
    r
}

fn contains_value(v: &Vec<ScalarValue>, x: &ScalarValue) -> (r: bool)
    ensures
        r == values_view(v@).contains(x@),
{
    let mut i: usize = 0;
    while i < v.len()
        invariant
            i <= v.len(),
            forall|j: int| 0 <= j < i ==> (#[trigger] v@[j])@ != x@,
        decreases v.len() - i,
    {
        if v[i].same_as(x) {
            assert(values_view(v@)[i as int] == x@);
            return true;
        }
        i = i + 1;
    }
    proof {
        if values_view(v@).contains(x@) {
            let j = choose|j: int| 0 <= j < values_view(v@).len() && values_view(v@)[j] == x@;
            assert(v@[j]@ == x@);
        }
    }
    false
}

impl Accumulator {
    /// A fresh accumulator of `fun` for values of type `t`.
    pub fn new(fun: AggregateFunction, t: DataType) -> (r: Result<Accumulator, EngineError>)
        ensures
            match (r, init_acc(fun, t)) {
                (Ok(a), Ok(m)) => a@ == m,
                (Err(e), Err(k)) => e.kind == k,
                _ => false,
            },
    {
        let float = t == DataType::Float32 || t == DataType::Float64;
        match fun {
            AggregateFunction::Sum => if t == DataType::Int32 {
                Ok(Accumulator::Sum(ScalarValue::Int32(0)))
            } else if t == DataType::Int64 {
                Ok(Accumulator::Sum(ScalarValue::Int64(0)))
            } else if float {
                Err(EngineError::new(ErrorKind::Evaluation, "floating-point sums are not supported"))
            } else {
                Err(EngineError::new(ErrorKind::Type, "sum of non-numeric values"))
            },
            AggregateFunction::Min => if float {
                Err(EngineError::new(ErrorKind::Evaluation, "floating-point comparison is not supported"))
            } else {
                Ok(Accumulator::Min(None))
            },
            AggregateFunction::Max => if float {
                Err(EngineError::new(ErrorKind::Evaluation, "floating-point comparison is not supported"))
            } else {
                Ok(Accumulator::Max(None))
            },
            AggregateFunction::Avg => Err(EngineError::new(ErrorKind::Evaluation, "averages are floating-point and not supported")),
            AggregateFunction::Count => Ok(Accumulator::Count(0)),
            AggregateFunction::CountDistinct => {
                let v: Vec<ScalarValue> = Vec::new();
                assert(values_view(v@) =~= Seq::<Datum>::empty());
                Ok(Accumulator::Distinct(v))
            },
        }
    }

    /// The accumulator after taking in `v`.
    pub fn accumulate(&self, v: &ScalarValue) -> (r: Result<Accumulator, EngineError>)
        ensures
            match (r, acc_step(self@, v@)) {
                (Ok(a), Ok(m)) => a@ == m,
                (Err(e), Err(k)) => e.kind == k,
                _ => false,
            },
    {
        match self {
            Accumulator::Sum(s) => match binary_value(Operator::Add, s, v) {
                Some(x) => Ok(Accumulator::Sum(x)),
                None => Err(EngineError::new(ErrorKind::Evaluation, "sum overflowed")),
            },
            Accumulator::Min(None) => Ok(Accumulator::Min(Some(v.clone()))),
            Accumulator::Min(Some(m)) => match binary_value(Operator::Lt, v, m) {
                Some(ScalarValue::Boolean(b)) => if b {
                    Ok(Accumulator::Min(Some(v.clone())))
                } else {
                    Ok(Accumulator::Min(Some(m.clone())))
                },
                _ => Err(EngineError::new(ErrorKind::Evaluation, "values cannot be compared")),
            },
            Accumulator::Max(None) => Ok(Accumulator::Max(Some(v.clone()))),
            Accumulator::Max(Some(m)) => match binary_value(Operator::Gt, v, m) {
                Some(ScalarValue::Boolean(b)) => if b {
                    Ok(Accumulator::Max(Some(v.clone())))
                } else {
                    Ok(Accumulator::Max(Some(m.clone())))
                },
                _ => Err(EngineError::new(ErrorKind::Evaluation, "values cannot be compared")),
            },
            Accumulator::Count(n) => if *n < i64::MAX {
                Ok(Accumulator::Count(*n + 1))
            } else {
                Err(EngineError::new(ErrorKind::Evaluation, "count overflowed"))
            },
            Accumulator::Distinct(seen) => {
                if contains_value(seen, v) {
                    Ok(Accumulator::Distinct(copy_values(seen)))
                } else if (seen.len() as u64) < (i64::MAX as u64) {
                    let mut more = copy_values(seen);
                    more.push(v.clone());
                    proof {
                        assert(values_view(more@) =~= values_view(seen@).push(v@));
                    }
                    Ok(Accumulator::Distinct(more))
                } else {
                    Err(EngineError::new(ErrorKind::Evaluation, "count overflowed"))
                }
            },
        }
    }

    /// The aggregate's result.
    pub fn final_value(&self) -> (r: ScalarValue)
        ensures
            r@ == acc_final(self@),
    {
        match self {
            Accumulator::Sum(s) => s.clone(),
            Accumulator::Min(Some(m)) => m.clone(),
            Accumulator::Max(Some(m)) => m.clone(),
            Accumulator::Count(n) => ScalarValue::Int64(*n),
            Accumulator::Distinct(seen) => ScalarValue::Int64(seen.len() as i64),
            _ => ScalarValue::Int64(0),
        }
    }
}

/// One group of the hash table: its key and its accumulators.
#[derive(Debug)]
pub struct Group {
    pub key: Vec<ScalarValue>,
    pub accs: Vec<Accumulator>,
}

pub open spec fn group_view(g: Group) -> (Seq<Datum>, Seq<Acc>) {
    (values_view(g.key@), accs_view(g.accs@))
}

pub open spec fn table_view(t: Seq<Group>) -> GroupsView {
    t.map_values(|g: Group| group_view(g))
}

fn same_values(a: &Vec<ScalarValue>, b: &Vec<ScalarValue>) -> (r: bool)
    ensures
        r == (values_view(a@) == values_view(b@)),
{
    if a.len() != b.len() {
        assert(values_view(a@).len() != values_view(b@).len());
        return false;
    }
    let mut i: usize = 0;
    while i < a.len()
        invariant
            i <= a.len(),
            a.len() == b.len(),
            forall|j: int| 0 <= j < i ==> (#[trigger] a@[j])@ == b@[j]@,
        decreases a.len() - i,
    {
        if !a[i].same_as(&b[i]) {
            assert(values_view(a@)[i as int] != values_view(b@)[i as int]);
            return false;
        }
        i = i + 1;
    }
    assert(values_view(a@) =~= values_view(b@));
    true
}

proof fn lemma_key_pos_valid(st: GroupsView, key: Seq<Datum>)
    ensures
        key_pos(st, key) matches Some(i) ==> 0 <= i < st.len() && st[i].0 == key,
    decreases st.len(),
{
    if st.len() > 0 {
        lemma_key_pos_valid(st.drop_last(), key);
    }
}

proof fn lemma_key_pos_prefix(st: GroupsView, key: Seq<Datum>, n: int)
    requires
        0 <= n <= st.len(),
    ensures
        key_pos(st.take(n), key) is Some ==> key_pos(st, key) == key_pos(st.take(n), key),
        key_pos(st.take(n), key) is None && n < st.len() && st[n].0 == key ==> key_pos(st, key) == Some(n),
    decreases st.len() - n,
{
    if n < st.len() {
        assert(st.take(n + 1).drop_last() =~= st.take(n));
        lemma_key_pos_prefix(st, key, n + 1);
    } else {
        assert(st.take(n) =~= st);
    }
}

fn find_group(table: &Vec<Group>, key: &Vec<ScalarValue>) -> (r: Option<usize>)
    ensures
        match key_pos(table_view(table@), values_view(key@)) {
            Some(j) => r matches Some(i) && i as int == j,
            None => r is None,
        },
{
    let ghost st = table_view(table@);
    let ghost k = values_view(key@);
    let mut i: usize = 0;
    while i < table.len()
        invariant
            i <= table.len(),
            st == table_view(table@),
            k == values_view(key@),
            key_pos(st.take(i as int), k) is None,
        decreases table.len() - i,
    {
        proof {
            assert(st.take(i + 1).drop_last() =~= st.take(i as int));
        }
        if same_values(&table[i].key, key) {
            proof {
                lemma_key_pos_prefix(st, k, i as int);
            }
            return Some(i);
        }
        i = i + 1;
    }
    proof {
        assert(st.take(i as int) =~= st);
    }
    None
}

proof fn lemma_init_accs_prefix(funs: Seq<AggregateFunction>, args: Seq<Datum>, n: int)
    requires
        0 <= n <= funs.len(),
        init_accs(funs.take(n), args) is Err,
    ensures
        init_accs(funs, args) == init_accs(funs.take(n), args),
    decreases funs.len() - n,
{
    if n < funs.len() {
        assert(funs.take(n + 1).drop_last() =~= funs.take(n));
        lemma_init_accs_prefix(funs, args, n + 1);
    } else {
        assert(funs.take(n) =~= funs);
    }
}

fn init_all(funs: &Vec<AggregateFunction>, args: &Vec<ScalarValue>) -> (r: Result<Vec<Accumulator>, EngineError>)
    requires
        funs.len() <= args.len(),
    ensures
        match (r, init_accs(funs@, values_view(args@))) {
            (Ok(a), Ok(m)) => accs_view(a@) == m,
            (Err(e), Err(k)) => e.kind == k,
            _ => false,
        },
{
    let ghost av = values_view(args@);
    let mut out: Vec<Accumulator> = Vec::new();
    let mut j: usize = 0;
    while j < funs.len()
        invariant
            j <= funs.len(),
            funs.len() <= args.len(),
            av == values_view(args@),
            init_accs(funs@.take(j as int), av) matches Ok(m) && accs_view(out@) == m,
        decreases funs.len() - j,
    {
        proof {
            assert(funs@.take(j + 1).drop_last() =~= funs@.take(j as int));
            assert(funs@.take(j + 1).last() == funs@[j as int]);
        }
        match Accumulator::new(funs[j], args[j].get_type()) {
            Ok(a) => {
                let ghost m = init_accs(funs@.take(j as int), av)->Ok_0;
                out.push(a);
                proof {
                    assert(accs_view(out@) =~= m.push(a@));
                }
            },
            Err(e) => {
                proof {
                    lemma_init_accs_prefix(funs@, av, (j + 1) as int);
                }
                return Err(e);
            },
        }
        j = j + 1;
    }
    proof {
        assert(funs@.take(j as int) =~= funs@);
    }
    Ok(out)
}

proof fn lemma_step_accs_prefix(accs: Seq<Acc>, args: Seq<Datum>, n: int)
    requires
        0 <= n <= accs.len(),
        step_accs(accs.take(n), args) is Err,
    ensures
        step_accs(accs, args) == step_accs(accs.take(n), args),
    decreases accs.len() - n,
{
    if n < accs.len() {
        assert(accs.take(n + 1).drop_last() =~= accs.take(n));
        lemma_step_accs_prefix(accs, args, n + 1);
    } else {
        assert(accs.take(n) =~= accs);
    }
}

fn step_all(accs: &Vec<Accumulator>, args: &Vec<ScalarValue>) -> (r: Result<Vec<Accumulator>, EngineError>)
    requires
        accs.len() <= args.len(),
    ensures
        match (r, step_accs(accs_view(accs@), values_view(args@))) {
            (Ok(a), Ok(m)) => accs_view(a@) == m,
            (Err(e), Err(k)) => e.kind == k,
            _ => false,
        },
{
    let ghost av = values_view(args@);
    let ghost cv = accs_view(accs@);
    let mut out: Vec<Accumulator> = Vec::new();
    let mut j: usize = 0;
    while j < accs.len()
        invariant
            j <= accs.len(),
            accs.len() <= args.len(),
            av == values_view(args@),
            cv == accs_view(accs@),
            step_accs(cv.take(j as int), av) matches Ok(m) && accs_view(out@) == m,
        decreases accs.len() - j,
    {
        proof {
            assert(cv.take(j + 1).drop_last() =~= cv.take(j as int));
            assert(cv.take(j + 1).last() == cv[j as int]);
        }
        match accs[j].accumulate(&args[j]) {
            Ok(a) => {
                let ghost m = step_accs(cv.take(j as int), av)->Ok_0;
                out.push(a);
                proof {
                    assert(accs_view(out@) =~= m.push(a@));
                }
            },
            Err(e) => {
                proof {
                    lemma_step_accs_prefix(cv, av, (j + 1) as int);
                }
                return Err(e);
            },
        }
        j = j + 1;
    }
    proof {
        assert(cv.take(j as int) =~= cv);
    }
    Ok(out)
}

proof fn lemma_step_accs_len(accs: Seq<Acc>, args: Seq<Datum>)
    ensures
        step_accs(accs, args) matches Ok(a) ==> a.len() == accs.len(),
    decreases accs.len(),
{
    if accs.len() > 0 {
        lemma_step_accs_len(accs.drop_last(), args);
    }
}

proof fn lemma_init_accs_len(funs: Seq<AggregateFunction>, args: Seq<Datum>)
    ensures
        init_accs(funs, args) matches Ok(a) ==> a.len() == funs.len(),
    decreases funs.len(),
{
    if funs.len() > 0 {
        lemma_init_accs_len(funs.drop_last(), args);
    }
}

/// Every group has a key of `ng` values and `na` accumulators.
pub open spec fn table_shaped(t: Seq<Group>, ng: nat, na: nat) -> bool {
    forall|i: int| 0 <= i < t.len() ==> (#[trigger] t[i]).key@.len() == ng && t[i].accs@.len() == na
}

/// The table after one row.
fn group_step_exec(table: Vec<Group>, funs: &Vec<AggregateFunction>, key: Vec<ScalarValue>, args: Vec<ScalarValue>) -> (r: Result<Vec<Group>, EngineError>)
    requires
        args.len() == funs.len(),
        table_shaped(table@, key@.len() as nat, funs@.len() as nat),
    ensures
        match (r, group_step(table_view(table@), funs@, values_view(key@), values_view(args@))) {
            (Ok(t), Ok(m)) => table_view(t@) == m && table_shaped(t@, key@.len() as nat, funs@.len() as nat),
            (Err(e), Err(k)) => e.kind == k,
            _ => false,
        },
{
    let ghost st = table_view(table@);
    match find_group(&table, &key) {
        Some(i) => {
            proof {
                lemma_key_pos_valid(st, values_view(key@));
                lemma_step_accs_len(accs_view(table@[i as int].accs@), values_view(args@));
            }
            let accs = match step_all(&table[i].accs, &args) {
                Ok(a) => a,
                Err(e) => { return Err(e); },
            };
            let mut t = table;
            let ghost kv = values_view(key@);
            let ghost nk = key@.len();
            t[i] = Group { key, accs };
            proof {
                assert(table_view(t@) =~= st.update(i as int, (kv, accs_view(accs@))));
                assert(st[i as int].1 == accs_view(table@[i as int].accs@));
                assert(table_shaped(t@, nk as nat, funs@.len() as nat));
                assert(key_pos(st, kv) == Some(i as int));
                assert(group_step(st, funs@, kv, values_view(args@)) == Ok::<GroupsView, ErrorKind>(table_view(t@)));
            }
            Ok(t)
        },
        None => {
            proof {
                lemma_init_accs_len(funs@, values_view(args@));
            }
            let a0 = match init_all(funs, &args) {
                Ok(a) => a,
                Err(e) => { return Err(e); },
            };
            proof {
                lemma_step_accs_len(accs_view(a0@), values_view(args@));
            }
            let accs = match step_all(&a0, &args) {
                Ok(a) => a,
                Err(e) => { return Err(e); },
            };
            let mut t = table;
            let ghost kv = values_view(key@);
            t.push(Group { key, accs });
            proof {
                assert(table_view(t@) =~= st.push((kv, accs_view(accs@))));
                assert(table_shaped(t@, key@.len() as nat, funs@.len() as nat));
            }
            Ok(t)
        },
    }
}

/// Builds an output column from values that must share one type; `t` types
/// an empty column.
pub fn values_to_column(vals: &Vec<ScalarValue>, t: DataType) -> (r: Result<ColumnArray, EngineError>)
    ensures
        match (r, out_column(values_view(vals@), t)) {
            (Ok(c), Ok(m)) => c.data_type() == m.0 && c@ == m.1,
            (Err(e), Err(k)) => e.kind == k,
            _ => false,
        },
{
    let ghost vv = values_view(vals@);
    if vals.len() == 0 {
        let c = column_from_values(t, vals);
        proof {
            assert(c@ =~= vv);
        }
        return Ok(c);
    }
    let t0 = vals[0].get_type();
    let mut i: usize = 0;
    while i < vals.len()
        invariant
            i <= vals.len(),
            vals@.len() > 0,
            vv == values_view(vals@),
            t0 == datum_type(vals@[0]@),
            forall|j: int| 0 <= j < i ==> datum_type((#[trigger] vals@[j])@) == t0,
        decreases vals.len() - i,
    {
        if vals[i].get_type() != t0 {
            assert(datum_type(vv[i as int]) != datum_type(vv[0]));
            return Err(EngineError::new(ErrorKind::Invariant, "aggregate values differ in type"));
        }
        i = i + 1;
    }
    assert(forall|j: int| 0 <= j < vv.len() ==> datum_type(#[trigger] vv[j]) == datum_type(vv[0]));
    let c = column_from_values(t0, vals);
    proof {
        assert(c@ =~= vv);
    }
    Ok(c)
}

/// The values of row `r` across `cols`.
fn row_values(cols: &Vec<ColumnArray>, r: usize) -> (res: Vec<ScalarValue>)
    requires
        forall|c: int| 0 <= c < cols@.len() ==> r < (#[trigger] cols@[c])@.len(),
    ensures
        values_view(res@) == row_of(cols@.map_values(|c: ColumnArray| (c.data_type(), c@)), r as int),
        res@.len() == cols@.len(),
{
    let ghost cv = cols@.map_values(|c: ColumnArray| (c.data_type(), c@));
    let mut out: Vec<ScalarValue> = Vec::new();
    let mut c: usize = 0;
    while c < cols.len()
        invariant
            c <= cols.len(),
            cv == cols@.map_values(|c: ColumnArray| (c.data_type(), c@)),
            forall|k: int| 0 <= k < cols@.len() ==> r < (#[trigger] cols@[k])@.len(),
            out@.len() == c,
            forall|k: int| 0 <= k < c ==> (#[trigger] out@[k])@ == cols@[k]@[r as int],
        decreases cols.len() - c,
    {
        match cols[c].get_value(r) {
            Some(v) => out.push(v),
            None => {
                assert(false);
            },
        }
        c = c + 1;
    }
    assert(values_view(out@) =~= row_of(cv, r as int));
    out
}

proof fn lemma_fold_rows_err(st: GroupsView, funs: Seq<AggregateFunction>, g: Seq<ColumnView>, a: Seq<ColumnView>, r: nat, n: nat)
    requires
        r <= n,
        fold_rows(st, funs, g, a, r) is Err,
    ensures
        fold_rows(st, funs, g, a, n) == fold_rows(st, funs, g, a, r),
    decreases n - r,
{
    if r < n {
        lemma_fold_rows_err(st, funs, g, a, r, (n - 1) as nat);
    }
}

proof fn lemma_fold_batches_err(groups: Seq<Expr>, inputs: Seq<Expr>, funs: Seq<AggregateFunction>, bs: Seq<(Seq<ColumnView>, nat)>, k: nat, n: nat)
    requires
        k <= n,
        fold_batches(groups, inputs, funs, bs, k) is Err,
    ensures
        fold_batches(groups, inputs, funs, bs, n) == fold_batches(groups, inputs, funs, bs, k),
    decreases n - k,
{
    if k < n {
        lemma_fold_batches_err(groups, inputs, funs, bs, k, (n - 1) as nat);
    }
}

proof fn lemma_out_columns_err(st: GroupsView, ng: nat, schema: Seq<FieldView>, k: nat, n: nat)
    requires
        k <= n,
        out_columns(st, ng, schema, k) is Err,
    ensures
        out_columns(st, ng, schema, n) == out_columns(st, ng, schema, k),
    decreases n - k,
{
    if k < n {
        lemma_out_columns_err(st, ng, schema, k, (n - 1) as nat);
    }
}

/// Hash aggregation over `batches`: one output row per distinct group key in
/// order of first appearance, holding the key values followed by the final
/// value of each aggregate over that group's rows.
pub fn hash_aggregate(
    groups: &Vec<Expr>,
    inputs: &Vec<Expr>,
    funs: &Vec<AggregateFunction>,
    schema: &Schema,
    batches: &Vec<RecordBatch>,
) -> (r: Result<RecordBatch, EngineError>)
    requires
        inputs@.len() == funs@.len(),
        schema.fields@.len() == groups@.len() + funs@.len(),
        forall|b: int| 0 <= b < batches@.len() ==> (#[trigger] batches@[b]).wf(),
    ensures
        match (r, aggregate_model(groups@, inputs@, funs@, schema@, batches_view(batches@))) {
            (Ok(b), Ok(m)) => b.wf() && b.schema@ == schema@ && batch_view(b) == m.0 && b.num_rows as nat == m.1,
            (Err(e), Err(k)) => e.kind == k,
            _ => false,
        },
{
    let ghost bv = batches_view(batches@);
    let ghost ng = groups@.len() as nat;
    let ghost na = funs@.len() as nat;
    let mut table: Vec<Group> = Vec::new();
    let mut b: usize = 0;
    while b < batches.len()
        invariant
            b <= batches.len(),
            inputs@.len() == funs@.len(),
            bv == batches_view(batches@),
            ng == groups@.len(),
            na == funs@.len(),
            forall|k: int| 0 <= k < batches@.len() ==> (#[trigger] batches@[k]).wf(),
            fold_batches(groups@, inputs@, funs@, bv, b as nat) matches Ok(st) && table_view(table@) == st,
            table_shaped(table@, ng, na),
        decreases batches.len() - b,
    {
        let batch = &batches[b];
        let ghost st0 = table_view(table@);
        let ghost cols = batch_view(*batch);
        let ghost n = batch.num_rows as nat;
        assert(bv[b as int] == (cols, n));
        let g = match evaluate_all(groups, batch) {
            Ok(g) => g,
            Err(e) => {
                proof {
                    lemma_fold_batches_err(groups@, inputs@, funs@, bv, (b + 1) as nat, bv.len());
                }
                return Err(e);
            },
        };
        let a = match evaluate_all(inputs, batch) {
            Ok(a) => a,
            Err(e) => {
                proof {
                    lemma_fold_batches_err(groups@, inputs@, funs@, bv, (b + 1) as nat, bv.len());
                }
                return Err(e);
            },
        };
        let ghost gv = g@.map_values(|c: ColumnArray| (c.data_type(), c@));
        let ghost av = a@.map_values(|c: ColumnArray| (c.data_type(), c@));
        proof {
            lemma_eval_all_rows_batch(groups@, *batch);
            lemma_eval_all_rows_batch(inputs@, *batch);
            assert forall|c: int| 0 <= c < g@.len() implies (#[trigger] g@[c])@.len() == n by {
                assert(gv[c].1.len() == n);
            }
            assert forall|c: int| 0 <= c < a@.len() implies (#[trigger] a@[c])@.len() == n by {
                assert(av[c].1.len() == n);
            }
        }
        let mut r: usize = 0;
        while r < batch.num_rows
            invariant
                r <= batch.num_rows,
                n == batch.num_rows,
                g@.len() == ng,
                a@.len() == na,
                na == funs@.len(),
                gv == g@.map_values(|c: ColumnArray| (c.data_type(), c@)),
                av == a@.map_values(|c: ColumnArray| (c.data_type(), c@)),
                forall|c: int| 0 <= c < g@.len() ==> (#[trigger] g@[c])@.len() == n,
                forall|c: int| 0 <= c < a@.len() ==> (#[trigger] a@[c])@.len() == n,
                fold_rows(st0, funs@, gv, av, r as nat) matches Ok(st) && table_view(table@) == st,
                table_shaped(table@, ng, na),
                b < batches@.len(),
                bv == batches_view(batches@),
                bv[b as int] == (cols, n),
                fold_batches(groups@, inputs@, funs@, bv, b as nat) == Ok::<GroupsView, ErrorKind>(st0),
                eval_all(groups@, cols, n) == Ok::<Seq<ColumnView>, ErrorKind>(gv),
                eval_all(inputs@, cols, n) == Ok::<Seq<ColumnView>, ErrorKind>(av),
            decreases batch.num_rows - r,
        {
            let key = row_values(&g, r);
            let args = row_values(&a, r);
            table = match group_step_exec(table, funs, key, args) {
                Ok(t) => t,
                Err(e) => {
                    proof {
                        lemma_fold_rows_err(st0, funs@, gv, av, (r + 1) as nat, n);
                        lemma_fold_batches_err(groups@, inputs@, funs@, bv, (b + 1) as nat, bv.len());
                    }
                    return Err(e);
                },
            };
            r = r + 1;
        }
        b = b + 1;
    }
    let ghost st = table_view(table@);
    proof {
        assert(bv.len() == b);
    }
    let ngroups = groups.len();
    let mut cols: Vec<ColumnArray> = Vec::new();
    let mut c: usize = 0;
    while c < schema.fields.len()
        invariant
            c <= schema.fields.len(),
            schema.fields@.len() == ngroups + funs@.len(),
            ngroups == ng,
            st == table_view(table@),
            table_shaped(table@, ng, na),
            na == funs@.len(),
            out_columns(st, ng, schema@, c as nat) matches Ok(cs)
                && cols@.map_values(|x: ColumnArray| (x.data_type(), x@)) == cs,
            forall|k: int| 0 <= k < cols@.len() ==> (#[trigger] cols@[k])@.len() == table@.len(),
            cols@.len() == c,
            ng == groups@.len(),
            fold_batches(groups@, inputs@, funs@, batches_view(batches@), batches@.len() as nat) == Ok::<GroupsView, ErrorKind>(st),
        decreases schema.fields.len() - c,
    {
        let mut vals: Vec<ScalarValue> = Vec::new();
        let mut i: usize = 0;
        while i < table.len()
            invariant
                i <= table.len(),
                c < schema.fields@.len(),
                schema.fields@.len() == ngroups + na,
                ngroups == ng,
                st == table_view(table@),
                table_shaped(table@, ng, na),
                values_view(vals@) == out_values(st, ng, c as int).take(i as int),
            decreases table.len() - i,
        {
            let v = if c < ngroups {
                table[i].key[c].clone()
            } else {
                table[i].accs[c - ngroups].final_value()
            };
            proof {
                assert(out_values(st, ng, c as int)[i as int] == v@);
            }
            let ghost old_vals = vals@;
            vals.push(v);
            proof {
                assert(values_view(vals@) =~= values_view(old_vals).push(v@));
                assert(values_view(vals@) =~= out_values(st, ng, c as int).take(i + 1));
            }
            i = i + 1;
        }
        proof {
            assert(out_values(st, ng, c as int).take(i as int) =~= out_values(st, ng, c as int));
        }
        let ghost prev = out_columns(st, ng, schema@, c as nat)->Ok_0;
        match values_to_column(&vals, schema.fields[c].data_type) {
            Ok(col) => {
                assert(col@.len() == table@.len());
                cols.push(col);
                proof {
                    assert(cols@.map_values(|x: ColumnArray| (x.data_type(), x@)) =~= prev.push((col.data_type(), col@)));
                }
            },
            Err(e) => {
                proof {
                    assert(values_view(vals@) == out_values(st, ng, c as int));
                    assert(schema@[c as int].1 == schema.fields@[c as int].data_type);
                    assert(out_columns(st, ng, schema@, (c + 1) as nat) == Err::<Seq<ColumnView>, ErrorKind>(e.kind));
                    lemma_out_columns_err(st, ng, schema@, (c + 1) as nat, schema@.len() as nat);
                    assert(batches_view(batches@).len() == batches@.len());
                    assert(out_columns(st, groups@.len(), schema@, schema@.len()) == Err::<Seq<ColumnView>, ErrorKind>(e.kind));
                }
                return Err(e);
            },
        }
        c = c + 1;
    }
    let out = RecordBatch { schema: schema.clone(), fields: cols, num_rows: table.len() };
    proof {
        assert(batch_view(out) =~= out_columns(st, ng, schema@, schema@.len() as nat)->Ok_0);
    }
    Ok(out)
}

pub proof fn lemma_eval_all_rows_batch(exprs: Seq<Expr>, b: RecordBatch)
    requires
        b.wf(),
    ensures
        eval_all(exprs, batch_view(b), b.num_rows as nat) matches Ok(cs) ==> cs.len() == exprs.len()
            && forall|i: int| 0 <= i < cs.len() ==> (#[trigger] cs[i]).1.len() == b.num_rows,
{
    let cols = batch_view(b);
    assert forall|i: int| 0 <= i < cols.len() implies (#[trigger] cols[i]).1.len() == b.num_rows by {
        assert(b.fields@[i]@.len() == b.num_rows);
    }
    crate::physical_expr::lemma_eval_all_rows(exprs, cols, b.num_rows as nat);
}

/// No two groups of the table share a key.
pub open spec fn distinct_keys(st: GroupsView) -> bool {
    forall|i: int, j: int| 0 <= i < st.len() && 0 <= j < st.len() && i != j ==> st[i].0 != st[j].0
}

proof fn lemma_key_pos_none(st: GroupsView, key: Seq<Datum>)
    ensures
        key_pos(st, key) is None ==> forall|i: int| 0 <= i < st.len() ==> (#[trigger] st[i]).0 != key,
    decreases st.len(),
{
    if st.len() > 0 {
        lemma_key_pos_none(st.drop_last(), key);
        if key_pos(st, key) is None {
            assert forall|i: int| 0 <= i < st.len() implies (#[trigger] st[i]).0 != key by {
                if i < st.len() - 1 {
                    assert(st[i] == st.drop_last()[i]);
                }
            }
        }
    }
}

proof fn lemma_group_step_distinct(st: GroupsView, funs: Seq<AggregateFunction>, key: Seq<Datum>, args: Seq<Datum>)
    requires
        distinct_keys(st),
    ensures
        group_step(st, funs, key, args) matches Ok(st2) ==> distinct_keys(st2),
{
    lemma_key_pos_valid(st, key);
    lemma_key_pos_none(st, key);
    if let Ok(st2) = group_step(st, funs, key, args) {
        assert forall|i: int, j: int| 0 <= i < st2.len() && 0 <= j < st2.len() && i != j implies st2[i].0 != st2[j].0 by {
            if key_pos(st, key) is None {
                if i < st.len() && j < st.len() {
                    assert(st2[i] == st[i] && st2[j] == st[j]);
                } else if i < st.len() {
                    assert(st2[i] == st[i]);
                } else {
                    assert(st2[j] == st[j]);
                }
            } else {
                assert(st2[i].0 == st[i].0);
                assert(st2[j].0 == st[j].0);
            }
        }
    }
}

proof fn lemma_fold_rows_distinct(st: GroupsView, funs: Seq<AggregateFunction>, g: Seq<ColumnView>, a: Seq<ColumnView>, r: nat)
    requires
        distinct_keys(st),
    ensures
        fold_rows(st, funs, g, a, r) matches Ok(st2) ==> distinct_keys(st2),
    decreases r,
{
    if r > 0 {
        lemma_fold_rows_distinct(st, funs, g, a, (r - 1) as nat);
        if let Ok(s) = fold_rows(st, funs, g, a, (r - 1) as nat) {
            lemma_group_step_distinct(s, funs, row_of(g, r - 1), row_of(a, r - 1));
        }
    }
}

proof fn lemma_fold_batches_distinct(groups: Seq<Expr>, inputs: Seq<Expr>, funs: Seq<AggregateFunction>, bs: Seq<(Seq<ColumnView>, nat)>, k: nat)
    ensures
        fold_batches(groups, inputs, funs, bs, k) matches Ok(st) ==> distinct_keys(st),
    decreases k,
{
    if k > 0 {
        lemma_fold_batches_distinct(groups, inputs, funs, bs, (k - 1) as nat);
        if let Ok(st) = fold_batches(groups, inputs, funs, bs, (k - 1) as nat) {
            let b = bs[k - 1];
            if let Ok(gc) = eval_all(groups, b.0, b.1) {
                if let Ok(ac) = eval_all(inputs, b.0, b.1) {
                    lemma_fold_rows_distinct(st, funs, gc, ac, b.1);
                }
            }
        }
    }
}

/// Hash aggregation yields one group per distinct key: after any sequence
/// of input batches, no two groups of the table share a key.
pub proof fn aggregate_keys_are_distinct(groups: Seq<Expr>, inputs: Seq<Expr>, funs: Seq<AggregateFunction>, bs: Seq<(Seq<ColumnView>, nat)>)
    ensures
        fold_batches(groups, inputs, funs, bs, bs.len()) matches Ok(st) ==> distinct_keys(st),
{
    lemma_fold_batches_distinct(groups, inputs, funs, bs, bs.len());
}

/// Every group of a one-key table holds one `Max` accumulator whose value
/// is the group's key.
pub open spec fn max_of_own_key(st: GroupsView) -> bool {
    forall|i: int| 0 <= i < st.len() ==> (#[trigger] st[i]).0.len() == 1
        && st[i].1 == seq![Acc::Max(Some(st[i].0[0]))]
}

proof fn lemma_max_step_self(st: GroupsView, key: Seq<Datum>)
    requires
        max_of_own_key(st),
        key.len() == 1,
    ensures
        group_step(st, seq![AggregateFunction::Max], key, key) matches Ok(st2) ==> max_of_own_key(st2),
{
    lemma_key_pos_valid(st, key);
    let v = key[0];
    let funs = seq![AggregateFunction::Max];
    assert(funs.drop_last() =~= Seq::<AggregateFunction>::empty());
    if let Ok(st2) = group_step(st, funs, key, key) {
        match key_pos(st, key) {
            Some(i) => {
                let accs = st[i].1;
                assert(accs == seq![Acc::Max(Some(v))]);
                assert(accs.drop_last() =~= Seq::<Acc>::empty());
                assert(step_accs(accs.drop_last(), key) == Ok::<Seq<Acc>, ErrorKind>(Seq::empty()));
                assert(accs.last() == Acc::Max(Some(v)));
                let a = step_accs(accs, key)->Ok_0;
                assert(a =~= seq![Acc::Max(Some(v))]);
                assert forall|j: int| 0 <= j < st2.len() implies (#[trigger] st2[j]).0.len() == 1
                    && st2[j].1 == seq![Acc::Max(Some(st2[j].0[0]))] by {
                    if j != i {
                        assert(st2[j] == st[j]);
                    }
                }
            },
            None => {
                assert(init_accs(funs.drop_last(), key) == Ok::<Seq<Acc>, ErrorKind>(Seq::empty()));
                let a0 = init_accs(funs, key)->Ok_0;
                assert(a0 =~= seq![Acc::Max(None)]);
                assert(a0.drop_last() =~= Seq::<Acc>::empty());
                assert(step_accs(a0.drop_last(), key) == Ok::<Seq<Acc>, ErrorKind>(Seq::empty()));
                let a = step_accs(a0, key)->Ok_0;
                assert(a =~= seq![Acc::Max(Some(v))]);
                assert forall|j: int| 0 <= j < st2.len() implies (#[trigger] st2[j]).0.len() == 1
                    && st2[j].1 == seq![Acc::Max(Some(st2[j].0[0]))] by {
                    if j < st.len() {
                        assert(st2[j] == st[j]);
                    }
                }
            },
        }
    }
}

proof fn lemma_max_rows_self(st: GroupsView, g: Seq<ColumnView>, r: nat)
    requires
        max_of_own_key(st),
        g.len() == 1,
    ensures
        fold_rows(st, seq![AggregateFunction::Max], g, g, r) matches Ok(st2) ==> max_of_own_key(st2),
    decreases r,
{
    if r > 0 {
        lemma_max_rows_self(st, g, (r - 1) as nat);
        if let Ok(s) = fold_rows(st, seq![AggregateFunction::Max], g, g, (r - 1) as nat) {
            lemma_max_step_self(s, row_of(g, r - 1));
        }
    }
}

proof fn lemma_max_batches_self(e: Expr, bs: Seq<(Seq<ColumnView>, nat)>, k: nat)
    requires
        k <= bs.len(),
    ensures
        fold_batches(seq![e], seq![e], seq![AggregateFunction::Max], bs, k) matches Ok(st) ==> max_of_own_key(st),
    decreases k,
{
    if k > 0 {
        lemma_max_batches_self(e, bs, (k - 1) as nat);
        if let Ok(st) = fold_batches(seq![e], seq![e], seq![AggregateFunction::Max], bs, (k - 1) as nat) {
            let b = bs[k - 1];
            assert(seq![e].drop_last() =~= Seq::<Expr>::empty());
            assert(seq![e].last() == e);
            assert(eval_all(seq![e].drop_last(), b.0, b.1) == Ok::<Seq<ColumnView>, ErrorKind>(Seq::empty()));
            if let Ok(gc) = eval_all(seq![e], b.0, b.1) {
                assert(gc.len() == 1);
                lemma_max_rows_self(st, gc, b.1);
            }
        }
    }
}

/// Grouping by an expression and taking the maximum of that same expression
/// gives, in every output row, a maximum equal to the row's key.
pub proof fn max_grouped_by_self_is_key(e: Expr, bs: Seq<(Seq<ColumnView>, nat)>)
    ensures
        fold_batches(seq![e], seq![e], seq![AggregateFunction::Max], bs, bs.len()) matches Ok(st)
            ==> out_values(st, 1, 0) == out_values(st, 1, 1),
{
    lemma_max_batches_self(e, bs, bs.len());
    if let Ok(st) = fold_batches(seq![e], seq![e], seq![AggregateFunction::Max], bs, bs.len()) {
        assert(out_values(st, 1, 0) =~= out_values(st, 1, 1));
    }
}

/// The keys of a table, in order.
pub open spec fn table_keys(st: GroupsView) -> Seq<Seq<Datum>> {
    st.map_values(|g: (Seq<Datum>, Seq<Acc>)| g.0)
}

/// `ks` followed by each key of `rows` not seen before, in order of first
/// occurrence.
pub open spec fn with_new_keys(ks: Seq<Seq<Datum>>, rows: Seq<Seq<Datum>>) -> Seq<Seq<Datum>>
    decreases rows.len(),
{
    if rows.len() == 0 {
        ks
    } else {
        let r = with_new_keys(ks, rows.drop_last());
        if r.contains(rows.last()) { r } else { r.push(rows.last()) }
    }
}

proof fn lemma_group_step_keys(st: GroupsView, funs: Seq<AggregateFunction>, key: Seq<Datum>, args: Seq<Datum>)
    ensures
        group_step(st, funs, key, args) matches Ok(st2) ==> table_keys(st2) == (
            if table_keys(st).contains(key) { table_keys(st) } else { table_keys(st).push(key) }),
{
    lemma_key_pos_valid(st, key);
    lemma_key_pos_none(st, key);
    if let Ok(st2) = group_step(st, funs, key, args) {
        match key_pos(st, key) {
            Some(i) => {
                assert(table_keys(st)[i] == key);
                assert(table_keys(st).contains(key));
                assert(table_keys(st2) =~= table_keys(st));
            },
            None => {
                assert(!table_keys(st).contains(key)) by {
                    if table_keys(st).contains(key) {
                        let j = choose|j: int| 0 <= j < table_keys(st).len() && table_keys(st)[j] == key;
                        assert(st[j].0 == key);
                    }
                }
                assert(table_keys(st2) =~= table_keys(st).push(key));
            },
        }
    }
}

/// The group keys of the first `n` rows of key columns `g`.
pub open spec fn key_rows(g: Seq<ColumnView>, n: nat) -> Seq<Seq<Datum>> {
    Seq::new(n, |r: int| row_of(g, r))
}

/// Taking in rows keeps the groups already present and appends each new key
/// at its first occurrence, so the output order depends on the input order
/// alone.
pub proof fn groups_in_first_occurrence_order(st: GroupsView, funs: Seq<AggregateFunction>, g: Seq<ColumnView>, a: Seq<ColumnView>, n: nat)
    ensures
        fold_rows(st, funs, g, a, n) matches Ok(st2) ==> table_keys(st2) == with_new_keys(table_keys(st), key_rows(g, n)),
    decreases n,
{
    if n > 0 {
        groups_in_first_occurrence_order(st, funs, g, a, (n - 1) as nat);
        assert(key_rows(g, n).drop_last() =~= key_rows(g, (n - 1) as nat));
        assert(key_rows(g, n).last() == row_of(g, n - 1));
        if let Ok(s) = fold_rows(st, funs, g, a, (n - 1) as nat) {
            lemma_group_step_keys(s, funs, row_of(g, n - 1), row_of(a, n - 1));
        }
    } else {
        assert(key_rows(g, 0) =~= Seq::<Seq<Datum>>::empty());
    }
}

} // verus!
