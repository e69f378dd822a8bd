use vstd::prelude::*;
use vstd::string::*;

pub use crate::column::ScalarValue;
use crate::column::{batch_view, datum_type, ColumnArray, ColumnView, Datum, RecordBatch};
use crate::error::{EngineError, ErrorKind};
use crate::logical_expr::Operator;
use crate::schema::DataType;
use crate::text::{decimal, i64_text, parse_i64, parse_int, str_lt, string_less};

verus! {


/// A physical expression, evaluated against a record batch.
#[derive(Debug, PartialEq, Eq)]
pub enum Expr {
    Column(Column),
    Literal(ScalarValue),
    Cast(Cast),
    BinaryExpr(BinaryExpr),
}

/// A reference to the batch's column at `index`.
#[derive(Debug, Clone, PartialEq, Eq)]
pub struct Column {
    pub index: usize,
}

#[derive(Debug, PartialEq, Eq)]
pub struct Cast {
    pub expr: Box<Expr>,
    pub data_type: DataType,
}

#[derive(Debug, PartialEq, Eq)]
pub struct BinaryExpr {
    pub op: Operator,
    pub left: Box<Expr>,
    pub right: Box<Expr>,
}

impl Column {
    pub fn new(index: usize) -> (r: Column)
        ensures
            r.index == index,
    {
        Column { index }
    }
}

impl Cast {
    pub fn new(expr: Expr, data_type: DataType) -> (r: Cast)
        ensures
            *r.expr == expr,
            r.data_type == data_type,
    {
        Cast { expr: Box::new(expr), data_type }
    }
}

impl BinaryExpr {
    pub fn new(op: Operator, left: Expr, right: Expr) -> (r: BinaryExpr)
        ensures
            r.op == op,
            *r.left == left,
            *r.right == right,
    {
        BinaryExpr { op, left: Box::new(left), right: Box::new(right) }
    }
}

pub open spec fn is_float(t: DataType) -> bool {
    t == DataType::Float32 || t == DataType::Float64
}

pub open spec fn is_integer(t: DataType) -> bool {
    t == DataType::Int32 || t == DataType::Int64
}

pub open spec fn compare_ints(op: Operator, x: int, y: int) -> bool {
    match op {
        Operator::Eq => x == y,
        Operator::Neq => x != y,
        Operator::Gt => x > y,
        Operator::GtEq => x >= y,
        Operator::Lt => x < y,
        _ => x <= y,
    }
}

pub open spec fn compare_texts(op: Operator, x: Seq<char>, y: Seq<char>) -> bool {
    match op {
        Operator::Eq => x == y,
        Operator::Neq => x != y,
        Operator::Gt => str_lt(y, x),
        Operator::GtEq => !str_lt(x, y),
        Operator::Lt => str_lt(x, y),
        _ => !str_lt(y, x),
    }
}

pub open spec fn bool_int(b: bool) -> int {
    if b { 1 } else { 0 }
}

/// Integer arithmetic on `x` and `y` within `[lo, hi]`; `None` on overflow
/// or division by zero.
pub open spec fn arith_ints(op: Operator, x: int, y: int, lo: int, hi: int) -> Option<int> {
    let v: int = match op {
        Operator::Add => x + y,
        Operator::Subtract => x - y,
        Operator::Multiply => x * y,
        Operator::Divide => trunc_div(x, y),
        _ => trunc_rem(x, y),
    };
    if (op == Operator::Divide || op == Operator::Modulus) && y == 0 {
        None
    } else if op == Operator::Modulus && x == lo && y == -1 {
        None
    } else if lo <= v <= hi {
        Some(v)
    } else {
        None
    }
}

/// Division rounding toward zero.
pub open spec fn trunc_div(x: int, y: int) -> int {
    if x == 0 {
        0
    } else if x > 0 && y > 0 {
        x / y
    } else if x < 0 && y < 0 {
        (x * -1) / (y * -1)
    } else if x < 0 {
        ((x * -1) / y) * -1
    } else {
        (x / (y * -1)) * -1
    }
}

/// The remainder of division rounding toward zero; it takes the sign of `x`.
pub open spec fn trunc_rem(x: int, y: int) -> int {
    if x == 0 {
        0
    } else if x > 0 && y > 0 {
        x % y
    } else if x < 0 && y < 0 {
        ((x * -1) % (y * -1)) * -1
    } else if x < 0 {
        ((x * -1) % y) * -1
    } else {
        x % (y * -1)
    }
}

/// The value of `op` on one pair of values of the same type, or `None` when
/// it has none (overflow, division by zero, an unsupported pairing).
pub open spec fn binary_datum(op: Operator, a: Datum, b: Datum) -> Option<Datum> {
    match (a, b) {
        (Datum::Boolean(x), Datum::Boolean(y)) => match op {
            Operator::And => Some(Datum::Boolean(x && y)),
            Operator::Or => Some(Datum::Boolean(x || y)),
            _ => if op.is_comparison() {
                Some(Datum::Boolean(compare_ints(op, bool_int(x), bool_int(y))))
            } else {
                None
            },
        },
        (Datum::Int32(x), Datum::Int32(y)) => if op.is_comparison() {
            Some(Datum::Boolean(compare_ints(op, x as int, y as int)))
        } else if op.is_arithmetic() {
            match arith_ints(op, x as int, y as int, i32::MIN as int, i32::MAX as int) {
                Some(v) => Some(Datum::Int32(v as i32)),
                None => None,
            }
        } else {
            None
        },
        (Datum::Int64(x), Datum::Int64(y)) => if op.is_comparison() {
            Some(Datum::Boolean(compare_ints(op, x as int, y as int)))
        } else if op.is_arithmetic() {
            match arith_ints(op, x as int, y as int, i64::MIN as int, i64::MAX as int) {
                Some(v) => Some(Datum::Int64(v as i64)),
                None => None,
            }
        } else {
            None
        },
        (Datum::Utf8(x), Datum::Utf8(y)) => if op.is_comparison() {
            Some(Datum::Boolean(compare_texts(op, x, y)))
        } else {
            None
        },
        _ => None,
    }
}

/// The column `op` makes of two columns.
pub open spec fn binary_col(op: Operator, l: ColumnView, r: ColumnView) -> Result<ColumnView, ErrorKind> {
    let t = l.0;
    if l.1.len() != r.1.len() {
        Err(ErrorKind::Invariant)
    } else if t != r.0 {
        Err(ErrorKind::Type)
    } else if (op == Operator::And || op == Operator::Or) && t != DataType::Boolean {
        Err(ErrorKind::Type)
    } else if op.is_arithmetic() && !(is_integer(t) || is_float(t)) {
        Err(ErrorKind::Type)
    } else if is_float(t) && op != Operator::And && op != Operator::Or {
        Err(ErrorKind::Evaluation)
    } else if forall|i: int| 0 <= i < l.1.len() ==> #[trigger] binary_datum(op, l.1[i], r.1[i]) is Some {
        let rt = if op.is_arithmetic() { t } else { DataType::Boolean };
        Ok((rt, Seq::new(l.1.len(), |i: int| binary_datum(op, l.1[i], r.1[i])->Some_0)))
    } else {
        Err(ErrorKind::Evaluation)
    }
}

/// One value converted to type `to`, or `None` when it cannot be.
pub open spec fn cast_datum(d: Datum, to: DataType) -> Option<Datum> {
    if datum_type(d) == to {
        Some(d)
    } else {
        match (d, to) {
            (Datum::Int32(v), DataType::Int64) => Some(Datum::Int64(v as i64)),
            (Datum::Int64(v), DataType::Int32) => if i32::MIN <= v <= i32::MAX {
                Some(Datum::Int32(v as i32))
            } else {
                None
            },
            (Datum::Int32(v), DataType::Utf8) => Some(Datum::Utf8(decimal(v as int))),
            (Datum::Int64(v), DataType::Utf8) => Some(Datum::Utf8(decimal(v as int))),
            (Datum::Boolean(b), DataType::Utf8) => Some(Datum::Utf8(if b { "true"@ } else { "false"@ })),
            (Datum::Utf8(s), DataType::Int64) => match parse_int(s) {
                Some(v) => if i64::MIN <= v <= i64::MAX { Some(Datum::Int64(v as i64)) } else { None },
                None => None,
            },
            (Datum::Utf8(s), DataType::Int32) => match parse_int(s) {
                Some(v) => if i32::MIN <= v <= i32::MAX { Some(Datum::Int32(v as i32)) } else { None },
                None => None,
            },
            (Datum::Utf8(s), DataType::Boolean) => if s == "true"@ {
                Some(Datum::Boolean(true))
            } else if s == "false"@ {
                Some(Datum::Boolean(false))
            } else {
                None
            },
            _ => None,
        }
    }
}

/// A column converted to type `to`.
pub open spec fn cast_col(c: ColumnView, to: DataType) -> Result<ColumnView, ErrorKind> {
    let t = c.0;
    if t == to {
        Ok(c)
    } else if (t == DataType::Boolean && (is_integer(to) || is_float(to)))
        || (to == DataType::Boolean && (is_integer(t) || is_float(t))) {
        Err(ErrorKind::Type)
    } else if is_float(t) || is_float(to) {
        Err(ErrorKind::Evaluation)
    } else if forall|i: int| 0 <= i < c.1.len() ==> #[trigger] cast_datum(c.1[i], to) is Some {
        Ok((to, Seq::new(c.1.len(), |i: int| cast_datum(c.1[i], to)->Some_0)))
    } else {
        Err(ErrorKind::Evaluation)
    }
}

/// What an expression evaluates to over columns `cols` of `n` rows.
pub open spec fn eval(e: Expr, cols: Seq<ColumnView>, n: nat) -> Result<ColumnView, ErrorKind>
    decreases e,
{
    match e {
        Expr::Column(c) => if c.index < cols.len() {
            Ok(cols[c.index as int])
        } else {
            Err(ErrorKind::Invariant)
        },
        Expr::Literal(v) => Ok((datum_type(v@), Seq::new(n, |i: int| v@))),
        Expr::Cast(c) => match eval(*c.expr, cols, n) {
            Ok(x) => cast_col(x, c.data_type),
            Err(k) => Err(k),
        },
        Expr::BinaryExpr(b) => match eval(*b.left, cols, n) {
            Err(k) => Err(k),
            Ok(x) => match eval(*b.right, cols, n) {
                Err(k) => Err(k),
                Ok(y) => binary_col(b.op, x, y),
            },
        },
    }
}


/// A result agrees with its model.
pub open spec fn column_outcome(r: Result<ColumnArray, EngineError>, m: Result<ColumnView, ErrorKind>) -> bool {
    match (r, m) {
        (Ok(c), Ok(v)) => c.data_type() == v.0 && c@ == v.1,
        (Err(e), Err(k)) => e.kind == k,
        _ => false,
    }
}

/// Evaluation preserves the row count: over columns of `n` rows, a
/// successful evaluation yields a column of `n` rows.
pub proof fn eval_preserves_rows(e: Expr, cols: Seq<ColumnView>, n: nat)
    requires
        forall|i: int| 0 <= i < cols.len() ==> (#[trigger] cols[i]).1.len() == n,
    ensures
        eval(e, cols, n) matches Ok(c) ==> c.1.len() == n,
    decreases e,
{
    match e {
        Expr::Cast(c) => eval_preserves_rows(*c.expr, cols, n),
        Expr::BinaryExpr(b) => {
            eval_preserves_rows(*b.left, cols, n);
            eval_preserves_rows(*b.right, cols, n);
        },
        _ => {},
    }
}

/// Builds a column of type `t` from values of that type.
pub fn column_from_values(t: DataType, vals: &Vec<ScalarValue>) -> (r: ColumnArray)
    requires
        forall|i: int| 0 <= i < vals@.len() ==> datum_type((#[trigger] vals@[i])@) == t,
    ensures
        r.data_type() == t,
        r@ == vals@.map_values(|v: ScalarValue| v@),
{
    let ghost want = vals@.map_values(|v: ScalarValue| v@);
    match t {
        DataType::Boolean => {
            let mut out: Vec<bool> = Vec::new();
            let mut i: usize = 0;
            while i < vals.len()
                invariant
                    i <= vals.len(),
                    forall|j: int| 0 <= j < vals@.len() ==> datum_type((#[trigger] vals@[j])@) == t,
                    t == DataType::Boolean,
                    out@.len() == i,
                    forall|j: int| 0 <= j < i ==> Datum::Boolean(#[trigger] out@[j]) == vals@[j]@,
                decreases vals.len() - i,
            {
                match &vals[i] {
                    ScalarValue::Boolean(x) => out.push(*x),
                    _ => { assert(datum_type(vals@[i as int]@) == t); },
                }
                i = i + 1;
            }
            let r = ColumnArray::Boolean(out);
            assert(r@ =~= want);
            r
        },
        DataType::Int32 => {
            let mut out: Vec<i32> = Vec::new();
            let mut i: usize = 0;
            while i < vals.len()
                invariant
                    i <= vals.len(),
                    forall|j: int| 0 <= j < vals@.len() ==> datum_type((#[trigger] vals@[j])@) == t,
                    t == DataType::Int32,
                    out@.len() == i,
                    forall|j: int| 0 <= j < i ==> Datum::Int32(#[trigger] out@[j]) == vals@[j]@,
                decreases vals.len() - i,
            {
                match &vals[i] {
                    ScalarValue::Int32(x) => out.push(*x),
                    _ => { assert(datum_type(vals@[i as int]@) == t); },
                }
                i = i + 1;
            }
            let r = ColumnArray::Int32(out);
            assert(r@ =~= want);
            r
        },
        DataType::Int64 => {
            let mut out: Vec<i64> = Vec::new();
            let mut i: usize = 0;
            while i < vals.len()
                invariant
                    i <= vals.len(),
                    forall|j: int| 0 <= j < vals@.len() ==> datum_type((#[trigger] vals@[j])@) == t,
                    t == DataType::Int64,
                    out@.len() == i,
                    forall|j: int| 0 <= j < i ==> Datum::Int64(#[trigger] out@[j]) == vals@[j]@,
                decreases vals.len() - i,
            {
                match &vals[i] {
                    ScalarValue::Int64(x) => out.push(*x),
                    _ => { assert(datum_type(vals@[i as int]@) == t); },
                }
                i = i + 1;
            }
            let r = ColumnArray::Int64(out);
            assert(r@ =~= want);
            r
        },
        DataType::Float32 => {
            let mut out: Vec<u32> = Vec::new();
            let mut i: usize = 0;
            while i < vals.len()
                invariant
                    i <= vals.len(),
                    forall|j: int| 0 <= j < vals@.len() ==> datum_type((#[trigger] vals@[j])@) == t,
                    t == DataType::Float32,
                    out@.len() == i,
                    forall|j: int| 0 <= j < i ==> Datum::Float32(#[trigger] out@[j]) == vals@[j]@,
                decreases vals.len() - i,
            {
                match &vals[i] {
                    ScalarValue::Float32(x) => out.push(*x),
                    _ => { assert(datum_type(vals@[i as int]@) == t); },
                }
                i = i + 1;
            }
            let r = ColumnArray::Float32(out);
            assert(r@ =~= want);
            r
        },
        DataType::Float64 => {
            let mut out: Vec<u64> = Vec::new();
            let mut i: usize = 0;
            while i < vals.len()
                invariant
                    i <= vals.len(),
                    forall|j: int| 0 <= j < vals@.len() ==> datum_type((#[trigger] vals@[j])@) == t,
                    t == DataType::Float64,
                    out@.len() == i,
                    forall|j: int| 0 <= j < i ==> Datum::Float64(#[trigger] out@[j]) == vals@[j]@,
                decreases vals.len() - i,
            {
                match &vals[i] {
                    ScalarValue::Float64(x) => out.push(*x),
                    _ => { assert(datum_type(vals@[i as int]@) == t); },
                }
                i = i + 1;
            }
            let r = ColumnArray::Float64(out);
            assert(r@ =~= want);
            r
        },
        DataType::Utf8 => {
            let mut out: Vec<String> = Vec::new();
            let mut i: usize = 0;
            while i < vals.len()
                invariant
                    i <= vals.len(),
                    forall|j: int| 0 <= j < vals@.len() ==> datum_type((#[trigger] vals@[j])@) == t,
                    t == DataType::Utf8,
                    out@.len() == i,
                    forall|j: int| 0 <= j < i ==> Datum::Utf8((#[trigger] out@[j])@) == vals@[j]@,
                decreases vals.len() - i,
            {
                match &vals[i] {
                    ScalarValue::String(x) => out.push(x.clone()),
                    _ => { assert(datum_type(vals@[i as int]@) == t); },
                }
                i = i + 1;
            }
            let r = ColumnArray::Utf8(out);
            assert(r@ =~= want);
            r
        },
    }
}

fn compare_i64(op: Operator, x: i64, y: i64) -> (r: bool)
    ensures
        r == compare_ints(op, x as int, y as int),
{
    match op {
        Operator::Eq => x == y,
        Operator::Neq => x != y,
        Operator::Gt => x > y,
        Operator::GtEq => x >= y,
        Operator::Lt => x < y,
        _ => x <= y,
    }
}

fn arith_i64(op: Operator, x: i64, y: i64) -> (r: Option<i64>)
    requires
        op.is_arithmetic(),
    ensures
        r == (match arith_ints(op, x as int, y as int, i64::MIN as int, i64::MAX as int) {
            Some(v) => Some(v as i64),
            None => None,
        }),
{
    match op {
        Operator::Add => x.checked_add(y),
        Operator::Subtract => x.checked_sub(y),
        Operator::Multiply => x.checked_mul(y),
        Operator::Divide => x.checked_div(y),
        _ => x.checked_rem(y),
    }
}

fn arith_i32(op: Operator, x: i32, y: i32) -> (r: Option<i32>)
    requires
        op.is_arithmetic(),
    ensures
        r == (match arith_ints(op, x as int, y as int, i32::MIN as int, i32::MAX as int) {
            Some(v) => Some(v as i32),
            None => None,
        }),
{
    match op {
        Operator::Add => x.checked_add(y),
        Operator::Subtract => x.checked_sub(y),
        Operator::Multiply => x.checked_mul(y),
        Operator::Divide => x.checked_div(y),
        _ => x.checked_rem(y),
    }
}

/// `op` applied to one pair of values.
pub fn binary_value(op: Operator, a: &ScalarValue, b: &ScalarValue) -> (r: Option<ScalarValue>)
    ensures
        match binary_datum(op, a@, b@) {
            Some(d) => r matches Some(v) && v@ == d,
            None => r is None,
        },
{
    match (a, b) {
        (ScalarValue::Boolean(x), ScalarValue::Boolean(y)) => match op {
            Operator::And => Some(ScalarValue::Boolean(*x && *y)),
            Operator::Or => Some(ScalarValue::Boolean(*x || *y)),
            Operator::Eq | Operator::Neq | Operator::Gt | Operator::GtEq | Operator::Lt | Operator::LtEq => {
                let xi: i64 = if *x { 1 } else { 0 };
                let yi: i64 = if *y { 1 } else { 0 };
                Some(ScalarValue::Boolean(compare_i64(op, xi, yi)))
            },
            _ => None,
        },
        (ScalarValue::Int32(x), ScalarValue::Int32(y)) => match op {
            Operator::And | Operator::Or => None,
            Operator::Eq | Operator::Neq | Operator::Gt | Operator::GtEq | Operator::Lt | Operator::LtEq =>
                Some(ScalarValue::Boolean(compare_i64(op, *x as i64, *y as i64))),
            _ => match arith_i32(op, *x, *y) {
                Some(v) => Some(ScalarValue::Int32(v)),
                None => None,
            },
        },
        (ScalarValue::Int64(x), ScalarValue::Int64(y)) => match op {
            Operator::And | Operator::Or => None,
            Operator::Eq | Operator::Neq | Operator::Gt | Operator::GtEq | Operator::Lt | Operator::LtEq =>
                Some(ScalarValue::Boolean(compare_i64(op, *x, *y))),
            _ => match arith_i64(op, *x, *y) {
                Some(v) => Some(ScalarValue::Int64(v)),
                None => None,
            },
        },
        (ScalarValue::String(x), ScalarValue::String(y)) => match op {
            Operator::Eq => Some(ScalarValue::Boolean(*x == *y)),
            Operator::Neq => Some(ScalarValue::Boolean(*x != *y)),
            Operator::Gt => Some(ScalarValue::Boolean(string_less(y, x))),
            Operator::GtEq => Some(ScalarValue::Boolean(!string_less(x, y))),
            Operator::Lt => Some(ScalarValue::Boolean(string_less(x, y))),
            Operator::LtEq => Some(ScalarValue::Boolean(!string_less(y, x))),
            _ => None,
        },
        _ => None,
    }
}

/// One value converted to type `to`.
pub fn cast_value(v: &ScalarValue, to: DataType) -> (r: Option<ScalarValue>)
    ensures
        match cast_datum(v@, to) {
            Some(d) => r matches Some(x) && x@ == d,
            None => r is None,
        },
{
    if v.get_type() == to {
        return Some(v.clone());
    }
    match (v, to) {
        (ScalarValue::Int32(x), DataType::Int64) => Some(ScalarValue::Int64(*x as i64)),
        (ScalarValue::Int64(x), DataType::Int32) => if i32::MIN as i64 <= *x && *x <= i32::MAX as i64 {
            Some(ScalarValue::Int32(*x as i32))
        } else {
            None
        },
        (ScalarValue::Int32(x), DataType::Utf8) => Some(ScalarValue::String(i64_text(*x as i64))),
        (ScalarValue::Int64(x), DataType::Utf8) => Some(ScalarValue::String(i64_text(*x))),
        (ScalarValue::Boolean(b), DataType::Utf8) => if *b {
            Some(ScalarValue::String(String::from_str("true")))
        } else {
            Some(ScalarValue::String(String::from_str("false")))
        },
        (ScalarValue::String(s), DataType::Int64) => match parse_i64(s) {
            Some(p) => Some(ScalarValue::Int64(p)),
            None => None,
        },
        (ScalarValue::String(s), DataType::Int32) => match parse_i64(s) {
            Some(p) => if i32::MIN as i64 <= p && p <= i32::MAX as i64 {
                Some(ScalarValue::Int32(p as i32))
            } else {
                None
            },
            None => None,
        },
        (ScalarValue::String(s), DataType::Boolean) => {
            if *s == String::from_str("true") {
                Some(ScalarValue::Boolean(true))
            } else if *s == String::from_str("false") {
                Some(ScalarValue::Boolean(false))
            } else {
                None
            }
        },
        _ => None,
    }
}

/// `op` applied row by row to two columns.
pub fn binary_column(op: Operator, l: &ColumnArray, r: &ColumnArray) -> (res: Result<ColumnArray, EngineError>)
    ensures
        column_outcome(res, binary_col(op, (l.data_type(), l@), (r.data_type(), r@))),
{
    let t = l.get_type();
    let n = l.size();
    if n != r.size() {
        return Err(EngineError::new(ErrorKind::Invariant, "operand columns differ in length"));
    }
    if t != r.get_type() {
        return Err(EngineError::new(ErrorKind::Type, "operand types differ"));
    }
    let logical = op == Operator::And || op == Operator::Or;
    let float = t == DataType::Float32 || t == DataType::Float64;
    let numeric = float || t == DataType::Int32 || t == DataType::Int64;
    if logical && t != DataType::Boolean {
        return Err(EngineError::new(ErrorKind::Type, "boolean operator on non-boolean operands"));
    }
    if op.arithmetic() && !numeric {
        return Err(EngineError::new(ErrorKind::Type, "arithmetic on non-numeric operands"));
    }
    if float && !logical {
        return Err(EngineError::new(ErrorKind::Evaluation, "floating-point computation is not supported"));
    }
    let ghost rt = if op.is_arithmetic() { t } else { DataType::Boolean };
    let mut vals: Vec<ScalarValue> = Vec::new();
    let mut i: usize = 0;
    while i < n
        invariant
            i <= n,
            n == l@.len(),
            n == r@.len(),
            t == l.data_type(),
            t == r.data_type(),
            !is_float(t),
            !((op == Operator::And || op == Operator::Or) && t != DataType::Boolean),
            !(op.is_arithmetic() && !(is_integer(t) || is_float(t))),
            rt == (if op.is_arithmetic() { t } else { DataType::Boolean }),
            vals@.len() == i,
            forall|j: int| 0 <= j < i ==> #[trigger] binary_datum(op, l@[j], r@[j]) is Some,
            forall|j: int| 0 <= j < i ==> (#[trigger] vals@[j])@ == binary_datum(op, l@[j], r@[j])->Some_0
                && datum_type(vals@[j]@) == rt,
        decreases n - i,
    {
        proof {
            l.lemma_typed();
            r.lemma_typed();
        }
        match (l.get_value(i), r.get_value(i)) {
            (Some(a), Some(b)) => match binary_value(op, &a, &b) {
                Some(v) => {
                    vals.push(v);
                },
                None => {
                    assert(binary_datum(op, l@[i as int], r@[i as int]) is None);
                    let ghost lv = (l.data_type(), l@);
                    let ghost rv = (r.data_type(), r@);
                    assert(binary_datum(op, lv.1[i as int], rv.1[i as int]) is None);
                    assert(binary_col(op, lv, rv) == Err::<ColumnView, ErrorKind>(ErrorKind::Evaluation));
                    return Err(EngineError::new(ErrorKind::Evaluation, "operation failed on a row"));
                },
            },
            _ => {
                return Err(EngineError::new(ErrorKind::Invariant, "row out of range"));
            },
        }
        i = i + 1;
    }
    assert(forall|j: int| 0 <= j < l@.len() ==> #[trigger] binary_datum(op, l@[j], r@[j]) is Some);
    let rtype = if op.arithmetic() { t } else { DataType::Boolean };
    let c = column_from_values(rtype, &vals);
    proof {
        assert(c@ =~= Seq::new(l@.len(), |i: int| binary_datum(op, l@[i], r@[i])->Some_0));
    }
    Ok(c)
}

/// A column converted row by row to type `to`.
pub fn cast_column(c: &ColumnArray, to: DataType) -> (res: Result<ColumnArray, EngineError>)
    ensures
        column_outcome(res, cast_col((c.data_type(), c@), to)),
{
    let t = c.get_type();
    if t == to {
        return Ok(c.clone());
    }
    let t_float = t == DataType::Float32 || t == DataType::Float64;
    let to_float = to == DataType::Float32 || to == DataType::Float64;
    let t_num = t_float || t == DataType::Int32 || t == DataType::Int64;
    let to_num = to_float || to == DataType::Int32 || to == DataType::Int64;
    if (t == DataType::Boolean && to_num) || (to == DataType::Boolean && t_num) {
        return Err(EngineError::new(ErrorKind::Type, "illegal cast between boolean and numeric"));
    }
    if t_float || to_float {
        return Err(EngineError::new(ErrorKind::Evaluation, "floating-point casts are not supported"));
    }
    let n = c.size();
    let mut vals: Vec<ScalarValue> = Vec::new();
    let mut i: usize = 0;
    while i < n
        invariant
            i <= n,
            n == c@.len(),
            t == c.data_type(),
            t != to,
            !is_float(t) && !is_float(to),
            !((t == DataType::Boolean && (is_integer(to) || is_float(to)))
                || (to == DataType::Boolean && (is_integer(t) || is_float(t)))),
            vals@.len() == i,
            forall|j: int| 0 <= j < i ==> #[trigger] cast_datum(c@[j], to) is Some,
            forall|j: int| 0 <= j < i ==> (#[trigger] vals@[j])@ == cast_datum(c@[j], to)->Some_0
                && datum_type(vals@[j]@) == to,
        decreases n - i,
    {
        match c.get_value(i) {
            Some(a) => match cast_value(&a, to) {
                Some(v) => {
                    vals.push(v);
                },
                None => {
                    assert(cast_datum(c@[i as int], to) is None);
                    let ghost cv = (c.data_type(), c@);
                    assert(cast_datum(cv.1[i as int], to) is None);
                    assert(cast_col(cv, to) == Err::<ColumnView, ErrorKind>(ErrorKind::Evaluation));
                    return Err(EngineError::new(ErrorKind::Evaluation, "value cannot be cast"));
                },
            },
            None => {
                return Err(EngineError::new(ErrorKind::Invariant, "row out of range"));
            },
        }
        i = i + 1;
    }
    assert(forall|j: int| 0 <= j < c@.len() ==> #[trigger] cast_datum(c@[j], to) is Some);
    let out = column_from_values(to, &vals);
    proof {
        assert(out@ =~= Seq::new(c@.len(), |i: int| cast_datum(c@[i], to)->Some_0));
    }
    Ok(out)
}

impl Expr {
    /// Evaluates the expression over a batch: a column reference gives that
    /// column, a literal a constant column of the batch's length, a cast or
    /// binary expression the row-by-row result.
    pub fn evaluate(&self, batch: &RecordBatch) -> (r: Result<ColumnArray, EngineError>)
        requires
            batch.wf(),
        ensures
            column_outcome(r, eval(*self, batch_view(*batch), batch.num_rows as nat)),
        decreases self,
    {
        match self {
            Expr::Column(c) => if c.index < batch.fields.len() {
                Ok(batch.fields[c.index].clone())
            } else {
                Err(EngineError::new(ErrorKind::Invariant, "column index out of range"))
            },
            Expr::Literal(v) => {
                let n = batch.num_rows;
                let mut vals: Vec<ScalarValue> = Vec::new();
                let mut i: usize = 0;
                while i < n
                    invariant
                        i <= n,
                        vals@.len() == i,
                        forall|j: int| 0 <= j < i ==> (#[trigger] vals@[j])@ == v@,
                    decreases n - i,
                {
                    vals.push(v.clone());
                    i = i + 1;
                }
                let c = column_from_values(v.get_type(), &vals);
                proof {
                    assert(c@ =~= Seq::new(n as nat, |i: int| v@));
                }
                Ok(c)
            },
            Expr::Cast(c) => {
                let x = c.expr.evaluate(batch)?;
                cast_column(&x, c.data_type)
            },
            Expr::BinaryExpr(b) => {
                let x = b.left.evaluate(batch)?;
                let y = b.right.evaluate(batch)?;
                binary_column(b.op, &x, &y)
            },
        }
    }

    /// The printed form: columns as `#index`, binary expressions as `L op R`.
    pub fn to_string(&self) -> (r: String)
        ensures
            r@ == phys_text(*self),
        decreases self,
    {
        match self {
            Expr::Column(c) => String::from_str("#").concat(crate::text::usize_text(c.index).as_str()),
            Expr::Literal(v) => match v {
                ScalarValue::Boolean(b) => if *b { String::from_str("true") } else { String::from_str("false") },
                ScalarValue::Int32(x) => i64_text(*x as i64),
                ScalarValue::Int64(x) => i64_text(*x),
                ScalarValue::Float32(x) => String::from_str("f32:").concat(i64_text(*x as i64).as_str()),
                ScalarValue::Float64(x) => String::from_str("f64:").concat(crate::text::u64_text(*x).as_str()),
                ScalarValue::String(s) => s.clone(),
            },
            Expr::Cast(c) => {
                let s = String::from_str("CAST(").concat(c.expr.to_string().as_str());
                s.concat(" AS ").concat(c.data_type.name().as_str()).concat(")")
            },
            Expr::BinaryExpr(b) => {
                let s = b.left.to_string().concat(" ").concat(b.op.symbol().as_str());
                s.concat(" ").concat(b.right.to_string().as_str())
            },
        }
    }
}

/// The printed form of a constant.
pub open spec fn value_text(v: ScalarValue) -> Seq<char> {
    match v {
        ScalarValue::Boolean(b) => if b { "true"@ } else { "false"@ },
        ScalarValue::Int32(x) => decimal(x as int),
        ScalarValue::Int64(x) => decimal(x as int),
        ScalarValue::Float32(x) => "f32:"@ + decimal(x as int),
        ScalarValue::Float64(x) => "f64:"@ + decimal(x as int),
        ScalarValue::String(s) => s@,
    }
}

/// The printed form of a physical expression.
pub open spec fn phys_text(e: Expr) -> Seq<char>
    decreases e,
{
    match e {
        Expr::Column(c) => "#"@ + decimal(c.index as int),
        Expr::Literal(v) => value_text(v),
        Expr::Cast(c) => "CAST("@ + phys_text(*c.expr) + " AS "@ + c.data_type.spec_name() + ")"@,
        Expr::BinaryExpr(b) => phys_text(*b.left) + " "@ + b.op.spec_symbol() + " "@ + phys_text(*b.right),
    }
}

/// The columns that `exprs` evaluate to, or the first failure.
pub open spec fn eval_all(exprs: Seq<Expr>, cols: Seq<ColumnView>, n: nat) -> Result<Seq<ColumnView>, ErrorKind>
    decreases exprs.len(),
{
    if exprs.len() == 0 {
        Ok(Seq::empty())
    } else {
        match eval_all(exprs.drop_last(), cols, n) {
            Err(k) => Err(k),
            Ok(cs) => match eval(exprs.last(), cols, n) {
                Err(k) => Err(k),
                Ok(c) => Ok(cs.push(c)),
            },
        }
    }
}

/// A failure on a prefix is the failure of the whole sequence.
pub proof fn lemma_eval_all_prefix_err(exprs: Seq<Expr>, cols: Seq<ColumnView>, n: nat, k: int)
    requires
        0 <= k <= exprs.len(),
        eval_all(exprs.take(k), cols, n) is Err,
    ensures
        eval_all(exprs, cols, n) == eval_all(exprs.take(k), cols, n),
    decreases exprs.len() - k,
{
    if k < exprs.len() {
        assert(exprs.take(k + 1).drop_last() =~= exprs.take(k));
        lemma_eval_all_prefix_err(exprs, cols, n, k + 1);
    } else {
        assert(exprs.take(k) =~= exprs);
    }
}

/// Successful evaluation of several expressions gives one column of `n`
/// rows per expression.
pub proof fn lemma_eval_all_rows(exprs: Seq<Expr>, cols: Seq<ColumnView>, n: nat)
    requires
        forall|i: int| 0 <= i < cols.len() ==> (#[trigger] cols[i]).1.len() == n,
    ensures
        eval_all(exprs, cols, n) matches Ok(cs) ==> cs.len() == exprs.len()
            && forall|i: int| 0 <= i < cs.len() ==> (#[trigger] cs[i]).1.len() == n,
    decreases exprs.len(),
{
    if exprs.len() > 0 {
        lemma_eval_all_rows(exprs.drop_last(), cols, n);
        eval_preserves_rows(exprs.last(), cols, n);
    }
}

/// Evaluates every expression over `batch`, stopping at the first failure.
pub fn evaluate_all(exprs: &Vec<Expr>, batch: &RecordBatch) -> (r: Result<Vec<ColumnArray>, EngineError>)
    requires
        batch.wf(),
    ensures
        match (r, eval_all(exprs@, batch_view(*batch), batch.num_rows as nat)) {
            (Ok(cs), Ok(m)) => cs@.map_values(|c: ColumnArray| (c.data_type(), c@)) == m,
            (Err(e), Err(k)) => e.kind == k,
            _ => false,
        },
{
    let ghost cols = batch_view(*batch);
    let ghost n = batch.num_rows as nat;
    let mut out: Vec<ColumnArray> = Vec::new();
    let mut k: usize = 0;
    while k < exprs.len()
        invariant
            k <= exprs.len(),
            batch.wf(),
            cols == batch_view(*batch),
            n == batch.num_rows as nat,
            eval_all(exprs@.take(k as int), cols, n) matches Ok(m)
                && out@.map_values(|c: ColumnArray| (c.data_type(), c@)) == m,
        decreases exprs.len() - k,
    {
        proof {
            assert(exprs@.take(k + 1).drop_last() =~= exprs@.take(k as int));
            assert(exprs@.take(k + 1).last() == exprs@[k as int]);
        }
        match exprs[k].evaluate(batch) {
            Ok(c) => {
                let ghost m = eval_all(exprs@.take(k as int), cols, n)->Ok_0;
                out.push(c);
                proof {
                    assert(out@.map_values(|c: ColumnArray| (c.data_type(), c@)) =~= m.push((c.data_type(), c@)));
                }
            },
            Err(e) => {
                proof {
                    lemma_eval_all_prefix_err(exprs@, cols, n, (k + 1) as int);
                }
                return Err(e);
            },
        }
        k = k + 1;
    }
    proof {
        assert(exprs@.take(k as int) =~= exprs@);
    }
    Ok(out)
}

} // verus!
