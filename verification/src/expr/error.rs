//! Errors of the tokenizer, the parser and the evaluator.

use vstd::prelude::*;

verus! {

/// All errors produced by the tokenizer, parser, and evaluator.
#[derive(Debug, PartialEq, Clone)]
pub enum ExprError {
    /// The input contains a character or token sequence that is not valid.
    UnexpectedToken(String),
    /// The input ended earlier than expected.
    UnexpectedEof,
    /// A field referenced in an expression is absent from the JSON data.
    MissingField(String),
    /// An operation is not defined for the given types.
    TypeError(String),
    /// Division by zero was attempted.
    DivisionByZero,
    /// An array index is out of bounds.
    IndexOutOfBounds(usize),
}

/// The mathematical value of an [`ExprError`].
pub enum SpecExprError {
    UnexpectedToken(Seq<char>),
    UnexpectedEof,
    MissingField(Seq<char>),
    TypeError(Seq<char>),
    DivisionByZero,
    IndexOutOfBounds(usize),
}

impl View for ExprError {
    type V = SpecExprError;

    open spec fn view(&self) -> SpecExprError {
        match self {
            ExprError::UnexpectedToken(s) => SpecExprError::UnexpectedToken(s@),
            ExprError::UnexpectedEof => SpecExprError::UnexpectedEof,
            ExprError::MissingField(s) => SpecExprError::MissingField(s@),
            ExprError::TypeError(s) => SpecExprError::TypeError(s@),
            ExprError::DivisionByZero => SpecExprError::DivisionByZero,
            ExprError::IndexOutOfBounds(i) => SpecExprError::IndexOutOfBounds(*i),
        }
    }
}

/// The message an expression error is shown with.
pub open spec fn spec_expr_error_message(e: ExprError) -> Seq<char> {
    match e {
        ExprError::UnexpectedToken(t) => "unexpected token: "@ + t@,
        ExprError::UnexpectedEof => "unexpected end of expression"@,
        ExprError::MissingField(n) => "missing field: ."@ + n@,
        ExprError::TypeError(m) => "type error: "@ + m@,
        ExprError::DivisionByZero => "division by zero"@,
        ExprError::IndexOutOfBounds(i) => "index out of bounds: "@ + crate::text::spec_decimal(i as nat),
    }
}

impl ExprError {
    /// The human-readable message for this error.
    pub fn message(&self) -> (r: String)
        ensures
            r@ == spec_expr_error_message(*self),
    {
        proof {
            reveal_strlit("");
        }
        match self {
            ExprError::UnexpectedToken(t) => crate::text::concat3("unexpected token: ", t.as_str(), ""),
            ExprError::UnexpectedEof => "unexpected end of expression".to_owned(),
            ExprError::MissingField(n) => crate::text::concat3("missing field: .", n.as_str(), ""),
            ExprError::TypeError(m) => crate::text::concat3("type error: ", m.as_str(), ""),
            ExprError::DivisionByZero => "division by zero".to_owned(),
            ExprError::IndexOutOfBounds(i) => {
                let d = crate::text::u64_to_decimal(*i as u64);
                crate::text::concat3("index out of bounds: ", d.as_str(), "")
            },
        }
    }
}

} // verus!
