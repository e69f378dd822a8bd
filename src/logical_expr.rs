use vstd::prelude::*;
use vstd::string::*;

use crate::error::{same_outcome, schema_model, EngineError, ErrorKind};
use crate::schema::{find_unique, has_unique, unique_pos, DataType, Field, FieldView, Schema};
use crate::text::{decimal, i64_text, usize_text};

verus! {

/// Operators applied to expressions.
#[derive(Debug, Copy, Clone, PartialEq, Eq, Structural, Hash, PartialOrd, Ord)]
pub enum Operator {
    And,
    Or,
    Eq,
    Neq,
    Gt,
    GtEq,
    Lt,
    LtEq,
    Add,
    Subtract,
    Multiply,
    Divide,
    Modulus,
}

impl Operator {
    pub open spec fn spec_name(self) -> Seq<char> {
        match self {
            Operator::And => "and"@,
            Operator::Or => "or"@,
            Operator::Eq => "eq"@,
            Operator::Neq => "neq"@,
            Operator::Gt => "gt"@,
            Operator::GtEq => "gteq"@,
            Operator::Lt => "lt"@,
            Operator::LtEq => "lteq"@,
            Operator::Add => "add"@,
            Operator::Subtract => "subtract"@,
            Operator::Multiply => "mult"@,
            Operator::Divide => "div"@,
            Operator::Modulus => "mod"@,
        }
    }

    /// The operator's token, used as the name of the field it produces.
    pub fn get_name(&self) -> (r: String)
        ensures
            r@ == self.spec_name(),
    {
        match self {
            Operator::And => String::from_str("and"),
            Operator::Or => String::from_str("or"),
            Operator::Eq => String::from_str("eq"),
            Operator::Neq => String::from_str("neq"),
            Operator::Gt => String::from_str("gt"),
            Operator::GtEq => String::from_str("gteq"),
            Operator::Lt => String::from_str("lt"),
            Operator::LtEq => String::from_str("lteq"),
            Operator::Add => String::from_str("add"),
            Operator::Subtract => String::from_str("subtract"),
            Operator::Multiply => String::from_str("mult"),
            Operator::Divide => String::from_str("div"),
            Operator::Modulus => String::from_str("mod"),
        }
    }

    pub open spec fn spec_symbol(self) -> Seq<char> {
        match self {
            Operator::And => "AND"@,
            Operator::Or => "OR"@,
            Operator::Eq => "="@,
            Operator::Neq => "!="@,
            Operator::Gt => ">"@,
            Operator::GtEq => ">="@,
            Operator::Lt => "<"@,
            Operator::LtEq => "<="@,
            Operator::Add => "+"@,
            Operator::Subtract => "-"@,
            Operator::Multiply => "*"@,
            Operator::Divide => "/"@,
            Operator::Modulus => "%"@,
        }
    }

    /// The operator as printed between its operands.
    pub fn symbol(&self) -> (r: String)
        ensures
            r@ == self.spec_symbol(),
    {
        match self {
            Operator::And => String::from_str("AND"),
            Operator::Or => String::from_str("OR"),
            Operator::Eq => String::from_str("="),
            Operator::Neq => String::from_str("!="),
            Operator::Gt => String::from_str(">"),
            Operator::GtEq => String::from_str(">="),
            Operator::Lt => String::from_str("<"),
            Operator::LtEq => String::from_str("<="),
            Operator::Add => String::from_str("+"),
            Operator::Subtract => String::from_str("-"),
            Operator::Multiply => String::from_str("*"),
            Operator::Divide => String::from_str("/"),
            Operator::Modulus => String::from_str("%"),
        }
    }

    pub open spec fn is_arithmetic(self) -> bool {
        match self {
            Operator::Add | Operator::Subtract | Operator::Multiply | Operator::Divide
            | Operator::Modulus => true,
            _ => false,
        }
    }

    pub open spec fn is_comparison(self) -> bool {
        match self {
            Operator::Eq | Operator::Neq | Operator::Gt | Operator::GtEq | Operator::Lt
            | Operator::LtEq => true,
            _ => false,
        }
    }

    pub fn arithmetic(&self) -> (r: bool)
        ensures
            r == self.is_arithmetic(),
    {
        match self {
            Operator::Add | Operator::Subtract | Operator::Multiply | Operator::Divide
            | Operator::Modulus => true,
            _ => false,
        }
    }
}

/// Aggregate functions.
#[derive(Debug, Copy, Clone, PartialEq, Eq, Structural, Hash, PartialOrd, Ord)]
pub enum AggregateFunction {
    Sum,
    Min,
    Max,
    Avg,
    Count,
    CountDistinct,
}

impl AggregateFunction {
    pub open spec fn spec_name(self) -> Seq<char> {
        match self {
            AggregateFunction::Sum => "sum"@,
            AggregateFunction::Min => "min"@,
            AggregateFunction::Max => "max"@,
            AggregateFunction::Avg => "avg"@,
            AggregateFunction::Count => "count"@,
            AggregateFunction::CountDistinct => "count_distinct"@,
        }
    }

    /// The function's name, used as the name of the field it produces.
    pub fn get_name(&self) -> (r: String)
        ensures
            r@ == self.spec_name(),
    {
        match self {
            AggregateFunction::Sum => String::from_str("sum"),
            AggregateFunction::Min => String::from_str("min"),
            AggregateFunction::Max => String::from_str("max"),
            AggregateFunction::Avg => String::from_str("avg"),
            AggregateFunction::Count => String::from_str("count"),
            AggregateFunction::CountDistinct => String::from_str("count_distinct"),
        }
    }

    pub open spec fn spec_symbol(self) -> Seq<char> {
        match self {
            AggregateFunction::Sum => "SUM"@,
            AggregateFunction::Min => "MIN"@,
            AggregateFunction::Max => "MAX"@,
            AggregateFunction::Avg => "AVG"@,
            AggregateFunction::Count => "COUNT"@,
            AggregateFunction::CountDistinct => "COUNT DISTINCT"@,
        }
    }

    /// The function as printed in an expression.
    pub fn symbol(&self) -> (r: String)
        ensures
            r@ == self.spec_symbol(),
    {
        match self {
            AggregateFunction::Sum => String::from_str("SUM"),
            AggregateFunction::Min => String::from_str("MIN"),
            AggregateFunction::Max => String::from_str("MAX"),
            AggregateFunction::Avg => String::from_str("AVG"),
            AggregateFunction::Count => String::from_str("COUNT"),
            AggregateFunction::CountDistinct => String::from_str("COUNT DISTINCT"),
        }
    }
}

/// The order key of a 32-bit float's bit pattern: keys compare as unsigned
/// integers in the IEEE-754 total order of the floats (negatives reversed
/// and below the positives).
pub open spec fn order_key32(bits: u32) -> u32 {
    if bits & 0x8000_0000u32 != 0 { !bits } else { bits | 0x8000_0000u32 }
}

/// The bit pattern of a 32-bit order key.
pub open spec fn key_bits32(key: u32) -> u32 {
    if key & 0x8000_0000u32 != 0 { key & 0x7fff_ffffu32 } else { !key }
}

/// The order key of a 64-bit float's bit pattern.
pub open spec fn order_key64(bits: u64) -> u64 {
    if bits & 0x8000_0000_0000_0000u64 != 0 { !bits } else { bits | 0x8000_0000_0000_0000u64 }
}

/// The bit pattern of a 64-bit order key.
pub open spec fn key_bits64(key: u64) -> u64 {
    if key & 0x8000_0000_0000_0000u64 != 0 { key & 0x7fff_ffff_ffff_ffffu64 } else { !key }
}

/// An order key gives back the bit pattern it was made from.
pub proof fn order_keys_round_trip(b32: u32, b64: u64)
    ensures
        key_bits32(order_key32(b32)) == b32,
        key_bits64(order_key64(b64)) == b64,
{
    assert(key_bits32(order_key32(b32)) == b32) by (bit_vector);
    assert(key_bits64(order_key64(b64)) == b64) by (bit_vector);
}

/// A constant of a logical expression. A floating-point constant is held as
/// the order key of its IEEE-754 bit pattern (see `order_key64`), so that
/// constants compare in the total order of floats, together with its
/// canonical text.
#[derive(Debug, Clone, PartialEq, Eq, Hash, PartialOrd, Ord)]
pub enum ScalarValue {
    String(String),
    Int32(i32),
    Int64(i64),
    Float32(u32, String),
    Float64(u64, String),
}

impl ScalarValue {
    /// The constant of a 32-bit float given by its bit pattern and text.
    pub fn float32(bits: u32, text: String) -> (r: ScalarValue)
        ensures
            r == ScalarValue::Float32(order_key32(bits), text),
    {
        let key = if bits & 0x8000_0000u32 != 0 { !bits } else { bits | 0x8000_0000u32 };
        ScalarValue::Float32(key, text)
    }

    /// The constant of a 64-bit float given by its bit pattern and text.
    pub fn float64(bits: u64, text: String) -> (r: ScalarValue)
        ensures
            r == ScalarValue::Float64(order_key64(bits), text),
    {
        let key = if bits & 0x8000_0000_0000_0000u64 != 0 { !bits } else { bits | 0x8000_0000_0000_0000u64 };
        ScalarValue::Float64(key, text)
    }

    pub open spec fn spec_text(&self) -> Seq<char> {
        match self {
            ScalarValue::String(s) => s@,
            ScalarValue::Int32(v) => decimal(*v as int),
            ScalarValue::Int64(v) => decimal(*v as int),
            ScalarValue::Float32(_, t) => t@,
            ScalarValue::Float64(_, t) => t@,
        }
    }

    pub open spec fn spec_type(&self) -> DataType {
        match self {
            ScalarValue::String(_) => DataType::Utf8,
            ScalarValue::Int32(_) => DataType::Int32,
            ScalarValue::Int64(_) => DataType::Int64,
            ScalarValue::Float32(_, _) => DataType::Float32,
            ScalarValue::Float64(_, _) => DataType::Float64,
        }
    }

    /// The textual form of the constant.
    pub fn to_string(&self) -> (r: String)
        ensures
            r@ == self.spec_text(),
    {
        match self {
            ScalarValue::String(s) => s.clone(),
            ScalarValue::Int32(v) => i64_text(*v as i64),
            ScalarValue::Int64(v) => i64_text(*v),
            ScalarValue::Float32(_, t) => t.clone(),
            ScalarValue::Float64(_, t) => t.clone(),
        }
    }

    pub fn data_type(&self) -> (r: DataType)
        ensures
            r == self.spec_type(),
    {
        match self {
            ScalarValue::String(_) => DataType::Utf8,
            ScalarValue::Int32(_) => DataType::Int32,
            ScalarValue::Int64(_) => DataType::Int64,
            ScalarValue::Float32(_, _) => DataType::Float32,
            ScalarValue::Float64(_, _) => DataType::Float64,
        }
    }
}

/// A logical expression such as `#a + 1` or `CAST(#c1 AS Int64)`.
#[derive(Debug, PartialEq, Eq, Hash, PartialOrd, Ord)]
pub enum Expr {
    /// A reference to a field by name.
    Column(Column),
    /// A reference to a field by position.
    ColumnIndex(ColumnIndex),
    /// A constant value.
    Literal(ScalarValue),
    /// Boolean negation.
    Not(Not),
    /// A conversion to a given type.
    Cast(Cast),
    /// A binary operation such as `age > 21`.
    BinaryExpr(BinaryExpr),
    /// An expression under another name.
    Alias(Alias),
    /// A call of a built-in scalar function.
    ScalarFunction(ScalarFunction),
    /// A call of an aggregate function.
    AggregateFunction(AggregateExpr),
}

#[derive(Debug, Clone, PartialEq, Eq, Hash, PartialOrd, Ord)]
pub struct Column {
    pub name: String,
}

#[derive(Debug, Clone, PartialEq, Eq, Hash, PartialOrd, Ord)]
pub struct ColumnIndex {
    pub index: usize,
}

#[derive(Debug, PartialEq, Eq, Hash, PartialOrd, Ord)]
pub struct Not {
    pub expr: Box<Expr>,
}

#[derive(Debug, PartialEq, Eq, Hash, PartialOrd, Ord)]
pub struct Cast {
    pub expr: Box<Expr>,
    pub data_type: DataType,
}

#[derive(Debug, PartialEq, Eq, Hash, PartialOrd, Ord)]
pub struct BinaryExpr {
    pub op: Operator,
    pub left: Box<Expr>,
    pub right: Box<Expr>,
}

#[derive(Debug, PartialEq, Eq, Hash, PartialOrd, Ord)]
pub struct Alias {
    pub expr: Box<Expr>,
    pub alias: String,
}

#[derive(Debug, PartialEq, Eq, Hash, PartialOrd, Ord)]
pub struct ScalarFunction {
    pub name: String,
    pub args: Vec<Expr>,
    pub return_type: DataType,
}

#[derive(Debug, PartialEq, Eq, Hash, PartialOrd, Ord)]
pub struct AggregateExpr {
    pub fun: AggregateFunction,
    pub expr: Box<Expr>,
    pub is_distinct: bool,
}

impl Clone for Expr {
    fn clone(&self) -> Self
        decreases self,
    {
        match self {
            Expr::Column(c) => Expr::Column(Column { name: c.name.clone() }),
            Expr::ColumnIndex(c) => Expr::ColumnIndex(ColumnIndex { index: c.index }),
            Expr::Literal(v) => Expr::Literal(v.clone()),
            Expr::Not(n) => Expr::Not(Not { expr: Box::new((*n.expr).clone()) }),
            Expr::Cast(c) => Expr::Cast(Cast { expr: Box::new((*c.expr).clone()), data_type: c.data_type }),
            Expr::BinaryExpr(b) => Expr::BinaryExpr(BinaryExpr {
                op: b.op,
                left: Box::new((*b.left).clone()),
                right: Box::new((*b.right).clone()),
            }),
            Expr::Alias(a) => Expr::Alias(Alias { expr: Box::new((*a.expr).clone()), alias: a.alias.clone() }),
            Expr::ScalarFunction(f) => {
                let mut args: Vec<Expr> = Vec::new();
                let mut k: usize = 0;
                while k < f.args.len()
                    invariant
                        *self == Expr::ScalarFunction(*f),
                    decreases f.args.len() - k,
                {
                    proof {
                        assert(decreases_to!(*self => (*self)->ScalarFunction_0));
                        assert(decreases_to!(*f => f.args));
                        assert(decreases_to!(f.args => f.args[k as int]));
                    }
                    args.push(f.args[k].clone());
                    k = k + 1;
                }
                Expr::ScalarFunction(ScalarFunction { name: f.name.clone(), args, return_type: f.return_type })
            },
            Expr::AggregateFunction(a) => Expr::AggregateFunction(AggregateExpr {
                fun: a.fun,
                expr: Box::new((*a.expr).clone()),
                is_distinct: a.is_distinct,
            }),
        }
    }
}

/// The field an expression resolves to against an input whose fields are
/// `input`, or which failed with an error of kind `input->Err_0`. Only column
/// references read the input, so only they (and what contains them) carry
/// its failure; a literal, `NOT`, a scalar function or a comparison resolves
/// whatever the input is.
pub open spec fn resolve(e: Expr, input: Result<Seq<FieldView>, ErrorKind>) -> Result<FieldView, ErrorKind>
    decreases e,
{
    match e {
        Expr::Column(c) => match input {
            Err(k) => Err(k),
            Ok(s) => if has_unique(s, c.name@) {
                Ok(s[unique_pos(s, c.name@)])
            } else {
                Err(ErrorKind::Resolution)
            },
        },
        Expr::ColumnIndex(c) => match input {
            Err(k) => Err(k),
            Ok(s) => if c.index < s.len() {
                Ok(s[c.index as int])
            } else {
                Err(ErrorKind::Invariant)
            },
        },
        Expr::Literal(v) => Ok((v.spec_text(), v.spec_type())),
        Expr::Not(_) => Ok(("not"@, DataType::Boolean)),
        Expr::Cast(c) => match resolve(*c.expr, input) {
            Ok(f) => Ok((f.0, c.data_type)),
            Err(k) => Err(k),
        },
        Expr::BinaryExpr(b) => if b.op.is_arithmetic() {
            match resolve(*b.left, input) {
                Ok(f) => Ok((b.op.spec_name(), f.1)),
                Err(k) => Err(k),
            }
        } else {
            Ok((b.op.spec_name(), DataType::Boolean))
        },
        Expr::Alias(a) => match resolve(*a.expr, input) {
            Ok(f) => Ok((a.alias@, f.1)),
            Err(k) => Err(k),
        },
        Expr::ScalarFunction(f) => Ok((f.name@, f.return_type)),
        Expr::AggregateFunction(a) => match resolve(*a.expr, input) {
            Ok(f) => Ok((a.fun.spec_name(), f.1)),
            Err(k) => Err(k),
        },
    }
}

/// The printed form of an expression.
pub open spec fn expr_text(e: Expr) -> Seq<char>
    decreases e, 0nat,
{
    match e {
        Expr::Column(c) => "#"@ + c.name@,
        Expr::ColumnIndex(c) => "#"@ + decimal(c.index as int),
        Expr::Literal(v) => v.spec_text(),
        Expr::Not(n) => "NOT "@ + expr_text(*n.expr),
        Expr::Cast(c) => "CAST("@ + expr_text(*c.expr) + " AS "@ + c.data_type.spec_name() + ")"@,
        Expr::BinaryExpr(b) => expr_text(*b.left) + " "@ + b.op.spec_symbol() + " "@ + expr_text(*b.right),
        Expr::Alias(a) => expr_text(*a.expr) + " as "@ + a.alias@,
        Expr::ScalarFunction(f) => f.name@ + "("@ + args_text(f.args@, f.args@.len() as nat) + ")"@,
        Expr::AggregateFunction(a) => if a.is_distinct {
            a.fun.spec_symbol() + "(DISTINCT "@ + expr_text(*a.expr) + ")"@
        } else {
            a.fun.spec_symbol() + "("@ + expr_text(*a.expr) + ")"@
        },
    }
}

/// The printed forms of the first `k` arguments, separated by `, `.
pub open spec fn args_text(args: Seq<Expr>, k: nat) -> Seq<char>
    decreases args, k,
{
    if k == 0 || k > args.len() {
        Seq::empty()
    } else if k == 1 {
        expr_text(args[0])
    } else {
        args_text(args, (k - 1) as nat) + ", "@ + expr_text(args[k - 1])
    }
}

impl Expr {
    /// Resolves the expression against an input schema, or an input whose
    /// schema failed; only column references read the input.
    pub fn resolve_in(&self, input: &Result<Schema, EngineError>) -> (r: Result<Field, EngineError>)
        ensures
            same_outcome(r, resolve(*self, schema_model(*input))),
        decreases self,
    {
        match self {
            Expr::Column(c) => match input {
                Err(e) => Err(e.clone_error()),
                Ok(schema) => match find_unique(&schema.fields, &c.name) {
                    Some(i) => Ok(schema.fields[i].clone()),
                    None => Err(EngineError::new(ErrorKind::Resolution, "no unique column with this name")),
                },
            },
            Expr::ColumnIndex(c) => match input {
                Err(e) => Err(e.clone_error()),
                Ok(schema) => if c.index < schema.fields.len() {
                    Ok(schema.fields[c.index].clone())
                } else {
                    Err(EngineError::new(ErrorKind::Invariant, "column index out of range"))
                },
            },
            Expr::Literal(v) => Ok(Field::new(v.to_string(), v.data_type())),
            Expr::Not(_) => Ok(Field::new(String::from_str("not"), DataType::Boolean)),
            Expr::Cast(c) => {
                let f = c.expr.resolve_in(input)?;
                Ok(Field::new(f.name, c.data_type))
            },
            Expr::BinaryExpr(b) => if b.op.arithmetic() {
                let f = b.left.resolve_in(input)?;
                Ok(Field::new(b.op.get_name(), f.data_type))
            } else {
                Ok(Field::new(b.op.get_name(), DataType::Boolean))
            },
            Expr::Alias(a) => {
                let f = a.expr.resolve_in(input)?;
                Ok(Field::new(a.alias.clone(), f.data_type))
            },
            Expr::ScalarFunction(f) => Ok(Field::new(f.name.clone(), f.return_type)),
            Expr::AggregateFunction(a) => {
                let f = a.expr.resolve_in(input)?;
                Ok(Field::new(a.fun.get_name(), f.data_type))
            },
        }
    }

    /// The printed form: columns as `#name` or `#index`, binary expressions
    /// as `L op R`, casts as `CAST(e AS T)`, aggregates as `FUN(e)`.
    pub fn to_string(&self) -> (r: String)
        ensures
            r@ == expr_text(*self),
        decreases self,
    {
        match self {
            Expr::Column(c) => String::from_str("#").concat(c.name.as_str()),
            Expr::ColumnIndex(c) => String::from_str("#").concat(usize_text(c.index).as_str()),
            Expr::Literal(v) => v.to_string(),
            Expr::Not(n) => String::from_str("NOT ").concat(n.expr.to_string().as_str()),
            Expr::Cast(c) => {
                let s = String::from_str("CAST(").concat(c.expr.to_string().as_str());
                s.concat(" AS ").concat(c.data_type.name().as_str()).concat(")")
            },
            Expr::BinaryExpr(b) => {
                let s = b.left.to_string().concat(" ").concat(b.op.symbol().as_str());
                s.concat(" ").concat(b.right.to_string().as_str())
            },
            Expr::Alias(a) => a.expr.to_string().concat(" as ").concat(a.alias.as_str()),
            Expr::ScalarFunction(f) => {
                let mut s = f.name.clone().concat("(");
                let mut k: usize = 0;
                let ghost start = s@;
                while k < f.args.len()
                    invariant
                        k <= f.args.len(),
                        s@ == start + args_text(f.args@, k as nat),
                        *self == Expr::ScalarFunction(*f),
                    decreases f.args.len() - k,
                {
                    proof {
                        assert(decreases_to!(*self => (*self)->ScalarFunction_0));
                        assert(decreases_to!(*f => f.args));
                        assert(decreases_to!(f.args => f.args[k as int]));
                    }
                    if k > 0 {
                        s.append(", ");
                    }
                    let t = f.args[k].to_string();
                    s.append(t.as_str());
                    k = k + 1;
                }
                s.concat(")")
            },
            Expr::AggregateFunction(a) => {
                let s = if a.is_distinct {
                    a.fun.symbol().concat("(DISTINCT ")
                } else {
                    a.fun.symbol().concat("(")
                };
                s.concat(a.expr.to_string().as_str()).concat(")")
            },
        }
    }
}

/// A reference to the field named `name`.
pub fn col(name: &str) -> (r: Expr)
    ensures
        r matches Expr::Column(c) && c.name@ == name@,
{
    Expr::Column(Column { name: String::from_str(name) })
}

/// A constant.
pub fn lit(value: ScalarValue) -> (r: Expr)
    ensures
        r == Expr::Literal(value),
{
    Expr::Literal(value)
}

/// `left op right`.
pub fn binary_expr(left: Expr, op: Operator, right: Expr) -> (r: Expr)
    ensures
        r == Expr::BinaryExpr(BinaryExpr { op, left: Box::new(left), right: Box::new(right) }),
{
    Expr::BinaryExpr(BinaryExpr { op, left: Box::new(left), right: Box::new(right) })
}

/// `fun(expr)`.
pub fn aggregate(fun: AggregateFunction, expr: Expr) -> (r: Expr)
    ensures
        r == Expr::AggregateFunction(AggregateExpr { fun, expr: Box::new(expr), is_distinct: false }),
{
    Expr::AggregateFunction(AggregateExpr { fun, expr: Box::new(expr), is_distinct: false })
}

pub fn sum(expr: Expr) -> (r: Expr)
    ensures
        r == Expr::AggregateFunction(AggregateExpr { fun: AggregateFunction::Sum, expr: Box::new(expr), is_distinct: false }),
{
    aggregate(AggregateFunction::Sum, expr)
}

pub fn min(expr: Expr) -> (r: Expr)
    ensures
        r == Expr::AggregateFunction(AggregateExpr { fun: AggregateFunction::Min, expr: Box::new(expr), is_distinct: false }),
{
    aggregate(AggregateFunction::Min, expr)
}

pub fn max(expr: Expr) -> (r: Expr)
    ensures
        r == Expr::AggregateFunction(AggregateExpr { fun: AggregateFunction::Max, expr: Box::new(expr), is_distinct: false }),
{
    aggregate(AggregateFunction::Max, expr)
}

pub fn avg(expr: Expr) -> (r: Expr)
    ensures
        r == Expr::AggregateFunction(AggregateExpr { fun: AggregateFunction::Avg, expr: Box::new(expr), is_distinct: false }),
{
    aggregate(AggregateFunction::Avg, expr)
}

pub fn count(expr: Expr) -> (r: Expr)
    ensures
        r == Expr::AggregateFunction(AggregateExpr { fun: AggregateFunction::Count, expr: Box::new(expr), is_distinct: false }),
{
    aggregate(AggregateFunction::Count, expr)
}

pub fn count_distinct(expr: Expr) -> (r: Expr)
    ensures
        r == Expr::AggregateFunction(AggregateExpr { fun: AggregateFunction::CountDistinct, expr: Box::new(expr), is_distinct: true }),
{
    Expr::AggregateFunction(AggregateExpr { fun: AggregateFunction::CountDistinct, expr: Box::new(expr), is_distinct: true })
}

impl Expr {
    /// `self = other`
    pub fn eq(self, other: Expr) -> (r: Expr)
        ensures
            r == Expr::BinaryExpr(BinaryExpr { op: Operator::Eq, left: Box::new(self), right: Box::new(other) }),
    {
        binary_expr(self, Operator::Eq, other)
    }

    /// `self != other`
    pub fn not_eq(self, other: Expr) -> (r: Expr)
        ensures
            r == Expr::BinaryExpr(BinaryExpr { op: Operator::Neq, left: Box::new(self), right: Box::new(other) }),
    {
        binary_expr(self, Operator::Neq, other)
    }

    /// `self > other`
    pub fn gt(self, other: Expr) -> (r: Expr)
        ensures
            r == Expr::BinaryExpr(BinaryExpr { op: Operator::Gt, left: Box::new(self), right: Box::new(other) }),
    {
        binary_expr(self, Operator::Gt, other)
    }

    /// `self >= other`
    pub fn gt_eq(self, other: Expr) -> (r: Expr)
        ensures
            r == Expr::BinaryExpr(BinaryExpr { op: Operator::GtEq, left: Box::new(self), right: Box::new(other) }),
    {
        binary_expr(self, Operator::GtEq, other)
    }

    /// `self < other`
    pub fn lt(self, other: Expr) -> (r: Expr)
        ensures
            r == Expr::BinaryExpr(BinaryExpr { op: Operator::Lt, left: Box::new(self), right: Box::new(other) }),
    {
        binary_expr(self, Operator::Lt, other)
    }

    /// `self <= other`
    pub fn lt_eq(self, other: Expr) -> (r: Expr)
        ensures
            r == Expr::BinaryExpr(BinaryExpr { op: Operator::LtEq, left: Box::new(self), right: Box::new(other) }),
    {
        binary_expr(self, Operator::LtEq, other)
    }

    /// `self AND other`
    pub fn and(self, other: Expr) -> (r: Expr)
        ensures
            r == Expr::BinaryExpr(BinaryExpr { op: Operator::And, left: Box::new(self), right: Box::new(other) }),
    {
        binary_expr(self, Operator::And, other)
    }

    /// `self OR other`
    pub fn or(self, other: Expr) -> (r: Expr)
        ensures
            r == Expr::BinaryExpr(BinaryExpr { op: Operator::Or, left: Box::new(self), right: Box::new(other) }),
    {
        binary_expr(self, Operator::Or, other)
    }

    /// `self as name`
    pub fn alias(self, name: String) -> (r: Expr)
        ensures
            r == Expr::Alias(Alias { expr: Box::new(self), alias: name }),
    {
        Expr::Alias(Alias::new(self, name))
    }
}

impl Alias {
    pub fn new(expr: Expr, alias: String) -> (r: Alias)
        ensures
            *r.expr == expr,
            r.alias == alias,
    {
        Alias { expr: Box::new(expr), alias }
    }
}

impl std::ops::Add for Expr {
    type Output = Expr;

    fn add(self, rhs: Expr) -> Expr {
        binary_expr(self, Operator::Add, rhs)
    }
}

impl std::ops::Sub for Expr {
    type Output = Expr;

    fn sub(self, rhs: Expr) -> Expr {
        binary_expr(self, Operator::Subtract, rhs)
    }
}

impl std::ops::Mul for Expr {
    type Output = Expr;

    fn mul(self, rhs: Expr) -> Expr {
        binary_expr(self, Operator::Multiply, rhs)
    }
}

impl std::ops::Div for Expr {
    type Output = Expr;

    fn div(self, rhs: Expr) -> Expr {
        binary_expr(self, Operator::Divide, rhs)
    }
}

impl std::ops::Rem for Expr {
    type Output = Expr;

    fn rem(self, rhs: Expr) -> Expr {
        binary_expr(self, Operator::Modulus, rhs)
    }
}

impl std::ops::Not for Expr {
    type Output = Expr;

    fn not(self) -> Expr {
        Expr::Not(Not { expr: Box::new(self) })
    }
}

impl vstd::std_specs::ops::AddSpecImpl for Expr {
    open spec fn obeys_add_spec() -> bool {
        true
    }

    open spec fn add_req(self, rhs: Expr) -> bool {
        true
    }

    open spec fn add_spec(self, rhs: Expr) -> Expr {
        Expr::BinaryExpr(BinaryExpr { op: Operator::Add, left: Box::new(self), right: Box::new(rhs) })
    }
}

impl vstd::std_specs::ops::SubSpecImpl for Expr {
    open spec fn obeys_sub_spec() -> bool {
        true
    }

    open spec fn sub_req(self, rhs: Expr) -> bool {
        true
    }

    open spec fn sub_spec(self, rhs: Expr) -> Expr {
        Expr::BinaryExpr(BinaryExpr { op: Operator::Subtract, left: Box::new(self), right: Box::new(rhs) })
    }
}

impl vstd::std_specs::ops::MulSpecImpl for Expr {
    open spec fn obeys_mul_spec() -> bool {
        true
    }

    open spec fn mul_req(self, rhs: Expr) -> bool {
        true
    }

    open spec fn mul_spec(self, rhs: Expr) -> Expr {
        Expr::BinaryExpr(BinaryExpr { op: Operator::Multiply, left: Box::new(self), right: Box::new(rhs) })
    }
}

impl vstd::std_specs::ops::DivSpecImpl for Expr {
    open spec fn obeys_div_spec() -> bool {
        true
    }

    open spec fn div_req(self, rhs: Expr) -> bool {
        true
    }

    open spec fn div_spec(self, rhs: Expr) -> Expr {
        Expr::BinaryExpr(BinaryExpr { op: Operator::Divide, left: Box::new(self), right: Box::new(rhs) })
    }
}

impl vstd::std_specs::ops::RemSpecImpl for Expr {
    open spec fn obeys_rem_spec() -> bool {
        true
    }

    open spec fn rem_req(self, rhs: Expr) -> bool {
        true
    }

    open spec fn rem_spec(self, rhs: Expr) -> Expr {
        Expr::BinaryExpr(BinaryExpr { op: Operator::Modulus, left: Box::new(self), right: Box::new(rhs) })
    }
}

impl vstd::std_specs::ops::NotSpecImpl for Expr {
    open spec fn obeys_not_spec() -> bool {
        true
    }

    open spec fn not_req(self) -> bool {
        true
    }

    open spec fn not_spec(self) -> Expr {
        Expr::Not(Not { expr: Box::new(self) })
    }
}

} // verus!
