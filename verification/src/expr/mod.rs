//! jq-like condition expressions: tokenizer and recursive-descent parser.
//!
//! Supported syntax:
//! - Field access: `.field`, `.nested.field`, `.array[0]`
//! - Comparisons: `>  <  >=  <=  ==  !=`
//! - Arithmetic:  `+  -  *  /`
//! - Logic:       `and  or  not`
//! - Literals:    `"string"`, `true`, `false`, integers, decimals
//! - Grouping:    `(.cost + .tax) > 100`

pub mod error;
pub mod eval;
pub mod lexer;
pub mod parser;

pub use error::ExprError;
