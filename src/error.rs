use vstd::prelude::*;
use vstd::string::*;

verus! {

/// The category of a failure, as seen by contracts.
#[derive(Clone, Copy, Debug, PartialEq, Eq, Structural)]
pub enum ErrorKind {
    /// Unknown or ambiguous column name, wrong arity.
    Resolution,
    /// Mismatched operand types, non-boolean predicate, illegal cast.
    Type,
    /// Division by zero, overflow, unsupported value computation.
    Evaluation,
    /// A logical construct that cannot be lowered.
    Plan,
    /// A broken structural invariant (bad column index, length mismatch).
    Invariant,
}

/// An error raised while planning or executing a query.
#[derive(Clone, Debug, PartialEq, Eq)]
pub struct EngineError {
    pub kind: ErrorKind,
    pub message: String,
}

pub open spec fn kind_prefix(k: ErrorKind) -> Seq<char> {
    match k {
        ErrorKind::Resolution => "resolution error: "@,
        ErrorKind::Type => "type error: "@,
        ErrorKind::Evaluation => "evaluation error: "@,
        ErrorKind::Plan => "plan error: "@,
        ErrorKind::Invariant => "invariant error: "@,
    }
}

impl EngineError {
    pub fn new(kind: ErrorKind, message: &str) -> (r: EngineError)
        ensures
            r.kind == kind,
            r.message@ == message@,
    {
        EngineError { kind, message: String::from_str(message) }
    }

    /// A copy of the error.
    pub fn clone_error(&self) -> (r: EngineError)
        ensures
            r.kind == self.kind,
            r.message@ == self.message@,
    {
        EngineError { kind: self.kind, message: self.message.clone() }
    }

    /// Renders the error as `<kind> error: <message>`.
    pub fn describe(&self) -> (r: String)
        ensures
            r@ == kind_prefix(self.kind) + self.message@,
    {
        let mut s = match self.kind {
            ErrorKind::Resolution => String::from_str("resolution error: "),
            ErrorKind::Type => String::from_str("type error: "),
            ErrorKind::Evaluation => String::from_str("evaluation error: "),
            ErrorKind::Plan => String::from_str("plan error: "),
            ErrorKind::Invariant => String::from_str("invariant error: "),
        };
        s.append(self.message.as_str());
        s
    }
}

/// The kind of an error result, or `None` for success.
pub open spec fn err_kind<T>(r: Result<T, EngineError>) -> Option<ErrorKind> {
    match r {
        Ok(_) => None,
        Err(e) => Some(e.kind),
    }
}

/// A schema result as seen by contracts.
pub open spec fn schema_model(r: Result<crate::schema::Schema, EngineError>) -> Result<Seq<crate::schema::FieldView>, ErrorKind> {
    match r {
        Ok(s) => Ok(s@),
        Err(e) => Err(e.kind),
    }
}

/// A result agrees with its model: the same value, or an error of the same kind.
pub open spec fn same_outcome<T: View>(r: Result<T, EngineError>, m: Result<T::V, ErrorKind>) -> bool {
    match (r, m) {
        (Ok(x), Ok(y)) => x@ == y,
        (Err(e), Err(k)) => e.kind == k,
        _ => false,
    }
}

} // verus!
