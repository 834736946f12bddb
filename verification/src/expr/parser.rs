//! Recursive-descent parser that turns tokens into an [`Expr`] tree.
//!
//! Precedence (lowest to highest):
//! 1. `or`
//! 2. `and`
//! 3. `not` (unary prefix)
//! 4. Comparisons: `== != > < >= <=` (non-associative)
//! 5. Additive: `+ -`
//! 6. Multiplicative: `* /`
//! 7. Primary: literal, field, grouped `(expr)`

use vstd::prelude::*;
use crate::expr::error::{ExprError, SpecExprError};
use crate::expr::lexer::{
    spec_digits_end, spec_tokenize, tokenize, view_tokens, NumberLit, SpecNumberLit, SpecToken,
    Token,
};
use crate::text::{collect_chars, spec_is_ascii_digit, str_chars};
use crate::config::view_strings;

pub use crate::expr::lexer::tokenize as tokenize_expression;

verus! {

// ---------------------------------------------------------------------------
// AST
// ---------------------------------------------------------------------------

/// Abstract syntax tree for a condition expression.
#[derive(Debug, PartialEq)]
pub enum Expr {
    /// A path into the JSON data, e.g. `.cost` or `.nested.field`.
    Field(Vec<PathStep>),
    /// A literal value.
    Literal(Literal),
    /// A binary operation.
    BinaryOp { op: BinOp, left: Box<Expr>, right: Box<Expr> },
    /// A unary operation (`not`).
    UnaryOp { op: UnaryOp, operand: Box<Expr> },
}

/// One step in a field path.
#[derive(Debug, PartialEq, Clone)]
pub enum PathStep {
    Key(String),
    Index(usize),
}

/// Literal value kinds.
#[derive(Debug, PartialEq, Clone)]
pub enum Literal {
    Number(NumberLit),
    Str(String),
    Bool(bool),
    Null,
}

/// Binary operator kinds.
#[derive(Debug, PartialEq, Eq, Clone, Copy, Structural)]
pub enum BinOp {
    Add,
    Sub,
    Mul,
    Div,
    Gt,
    Lt,
    Gte,
    Lte,
    Eq,
    Neq,
    And,
    Or,
}

/// Unary operator kinds.
#[derive(Debug, PartialEq, Eq, Clone, Copy, Structural)]
pub enum UnaryOp {
    Not,
}

/// The mathematical value of a [`PathStep`].
pub enum SpecPathStep {
    Key(Seq<char>),
    Index(usize),
}

/// The mathematical value of a [`Literal`].
pub enum SpecLiteral {
    Number(SpecNumberLit),
    Str(Seq<char>),
    Bool(bool),
    Null,
}

/// The mathematical value of an [`Expr`].
pub enum SpecExpr {
    Field(Seq<SpecPathStep>),
    Literal(SpecLiteral),
    BinaryOp { op: BinOp, left: Box<SpecExpr>, right: Box<SpecExpr> },
    UnaryOp { op: UnaryOp, operand: Box<SpecExpr> },
}

impl View for PathStep {
    type V = SpecPathStep;

    open spec fn view(&self) -> SpecPathStep {
        match self {
            PathStep::Key(k) => SpecPathStep::Key(k@),
            PathStep::Index(i) => SpecPathStep::Index(*i),
        }
    }
}

impl View for Literal {
    type V = SpecLiteral;

    open spec fn view(&self) -> SpecLiteral {
        match self {
            Literal::Number(n) => SpecLiteral::Number(n@),
            Literal::Str(s) => SpecLiteral::Str(s@),
            Literal::Bool(b) => SpecLiteral::Bool(*b),
            Literal::Null => SpecLiteral::Null,
        }
    }
}

/// The views of a sequence of path steps.
pub open spec fn view_steps(steps: Seq<PathStep>) -> Seq<SpecPathStep> {
    steps.map_values(|s: PathStep| s@)
}

/// The mathematical value of an [`Expr`].
pub open spec fn view_expr(e: Expr) -> SpecExpr
    decreases e,
{
    match e {
        Expr::Field(steps) => SpecExpr::Field(view_steps(steps@)),
        Expr::Literal(l) => SpecExpr::Literal(l@),
        Expr::BinaryOp { op, left, right } => SpecExpr::BinaryOp {
            op,
            left: Box::new(view_expr(*left)),
            right: Box::new(view_expr(*right)),
        },
        Expr::UnaryOp { op, operand } => SpecExpr::UnaryOp {
            op,
            operand: Box::new(view_expr(*operand)),
        },
    }
}

/// The view of an intermediate parse result: the tree and the position after it.
pub open spec fn view_step_result(r: Result<(Expr, usize), ExprError>) -> Result<
    (SpecExpr, int),
    SpecExprError,
> {
    match r {
        Ok((e, p)) => Ok((view_expr(e), p as int)),
        Err(err) => Err(err@),
    }
}

/// The view of a parse result.
pub open spec fn view_parse_result(r: Result<Expr, ExprError>) -> Result<SpecExpr, SpecExprError> {
    match r {
        Ok(e) => Ok(view_expr(e)),
        Err(err) => Err(err@),
    }
}

// ---------------------------------------------------------------------------
// Grammar
// ---------------------------------------------------------------------------

/// `char::escape_debug`: the text `{:?}` writes for the character inside
/// quotes.
pub uninterp spec fn spec_char_escape_debug(c: char) -> Seq<char>;

/// Calls `char::escape_debug` and collects its characters. Claims that the
/// text is named by [`spec_char_escape_debug`] and, as std documents and
/// implements it, that printable ASCII other than the backslash and the
/// quotes stands for itself while the backslash, the quotes, newline,
/// carriage return, tab and NUL get a backslash escape.
#[verifier::external_body]
fn char_escape_debug(c: char) -> (r: String)
    ensures
        r@ == spec_char_escape_debug(c),
        (' ' <= c && c <= '~' && c != '\\' && c != '"' && c != '\'') ==> r@ == seq![c],
        c == '\\' ==> r@ == seq!['\\', '\\'],
        c == '"' ==> r@ == seq!['\\', '"'],
        c == '\'' ==> r@ == seq!['\\', '\''],
        c == '\n' ==> r@ == seq!['\\', 'n'],
        c == '\r' ==> r@ == seq!['\\', 'r'],
        c == '\t' ==> r@ == seq!['\\', 't'],
        c == '\0' ==> r@ == seq!['\\', '0'],
{
    c.escape_debug().to_string()
}

/// The characters of a string as `{:?}` writes them between the quotes: each
/// character escaped as `char::escape_debug` does, except that a single
/// quote stands for itself.
pub open spec fn spec_escaped(s: Seq<char>) -> Seq<char>
    decreases s.len(),
{
    if s.len() == 0 {
        Seq::empty()
    } else {
        spec_escaped(s.drop_last()) + if s.last() == '\'' {
            seq!['\'']
        } else {
            spec_char_escape_debug(s.last())
        }
    }
}

/// A string as `{:?}` writes it: quoted and escaped.
pub open spec fn spec_quoted(s: Seq<char>) -> Seq<char> {
    seq!['"'] + spec_escaped(s) + seq!['"']
}

/// `x` is the text an `UnexpectedToken` error reports for the token `t`:
/// the token written as `{:?}` writes the tokenizer's tokens, a number as
/// `number_debug` writes its literal (the `{:?}` of its value).
pub open spec fn spec_token_text<N>(number_debug: N, t: SpecToken, x: Seq<char>) -> bool where
    N: Fn(&NumberLit) -> String,
 {
    match t {
        SpecToken::Dot => x == "Dot"@,
        SpecToken::Ident(s) => x == "Ident("@ + spec_quoted(s) + ")"@,
        SpecToken::Number(n) => exists|l: &NumberLit, y: String|
            l@ == n && #[trigger] number_debug.ensures((l,), y) && x == "Number("@ + y@ + ")"@,
        SpecToken::StringLit(s) => x == "StringLit("@ + spec_quoted(s) + ")"@,
        SpecToken::Op(s) => x == "Op("@ + spec_quoted(s) + ")"@,
        SpecToken::LParen => x == "LParen"@,
        SpecToken::RParen => x == "RParen"@,
        SpecToken::LBracket => x == "LBracket"@,
        SpecToken::RBracket => x == "RBracket"@,
        SpecToken::And => x == "And"@,
        SpecToken::Or => x == "Or"@,
        SpecToken::Not => x == "Not"@,
        SpecToken::Bool(b) => x == if b {
            "Bool(true)"@
        } else {
            "Bool(false)"@
        },
    }
}

fn push_str(out: &mut Vec<char>, s: &str)
    ensures
        final(out)@ == old(out)@ + s@,
{
    let mut cs = str_chars(s);
    out.append(&mut cs);
}

fn push_quoted(out: &mut Vec<char>, s: &str)
    ensures
        final(out)@ == old(out)@ + spec_quoted(s@),
{
    let ghost start = out@;
    out.push('"');
    let cs = str_chars(s);
    let mut i: usize = 0;
    assert(cs@.take(0) =~= Seq::<char>::empty());
    while i < cs.len()
        invariant
            i <= cs@.len(),
            cs@ == s@,
            out@ == start + seq!['"'] + spec_escaped(cs@.take(i as int)),
        decreases cs.len() - i,
    {
        assert(cs@.take(i + 1).drop_last() =~= cs@.take(i as int));
        assert(cs@.take(i + 1).last() == cs@[i as int]);
        let c = cs[i];
        if c == '\'' {
            out.push('\'');
        } else {
            let e = char_escape_debug(c);
            push_str(out, e.as_str());
        }
        assert(out@ =~= start + seq!['"'] + spec_escaped(cs@.take(i + 1)));
        i = i + 1;
    }
    assert(cs@.take(cs@.len() as int) =~= cs@);
    out.push('"');
    assert(out@ =~= start + spec_quoted(s@));
}

/// The text an `UnexpectedToken` error reports for a token, numbers written
/// by `number_debug`.
pub fn token_text<N>(t: &Token, number_debug: &N) -> (r: String) where N: Fn(&NumberLit) -> String
    requires
        forall|l: &NumberLit| number_debug.requires((l,)),
    ensures
        spec_token_text(*number_debug, t@, r@),
{
    let mut out: Vec<char> = Vec::new();
    match t {
        Token::Dot => push_str(&mut out, "Dot"),
        Token::Ident(s) => {
            push_str(&mut out, "Ident(");
            push_quoted(&mut out, s.as_str());
            push_str(&mut out, ")");
        },
        Token::Number(n) => {
            let y = number_debug(n);
            assert(number_debug.ensures((n,), y));
            push_str(&mut out, "Number(");
            push_str(&mut out, y.as_str());
            push_str(&mut out, ")");
        },
        Token::StringLit(s) => {
            push_str(&mut out, "StringLit(");
            push_quoted(&mut out, s.as_str());
            push_str(&mut out, ")");
        },
        Token::Op(s) => {
            push_str(&mut out, "Op(");
            push_quoted(&mut out, s.as_str());
            push_str(&mut out, ")");
        },
        Token::LParen => push_str(&mut out, "LParen"),
        Token::RParen => push_str(&mut out, "RParen"),
        Token::LBracket => push_str(&mut out, "LBracket"),
        Token::RBracket => push_str(&mut out, "RBracket"),
        Token::And => push_str(&mut out, "And"),
        Token::Or => push_str(&mut out, "Or"),
        Token::Not => push_str(&mut out, "Not"),
        Token::Bool(b) => if *b {
            push_str(&mut out, "Bool(true)")
        } else {
            push_str(&mut out, "Bool(false)")
        },
    }
    collect_chars(out.as_slice())
}

/// Result of a parsing step: the tree read and the position after it.
pub type SpecStep = Result<(SpecExpr, int), SpecExprError>;

pub open spec fn spec_peek(toks: Seq<SpecToken>, pos: int) -> Option<SpecToken> {
    if 0 <= pos < toks.len() {
        Some(toks[pos])
    } else {
        None
    }
}

/// The error for the token at `pos`: that token, reported by its text in
/// `texts`, or the end of input.
pub open spec fn spec_unexpected(toks: Seq<SpecToken>, texts: Seq<Seq<char>>, pos: int) -> SpecExprError {
    match spec_peek(toks, pos) {
        Some(_) => SpecExprError::UnexpectedToken(texts[pos]),
        None => SpecExprError::UnexpectedEof,
    }
}

/// A step that consumed at least one token and stayed within the input.
pub open spec fn advanced(toks: Seq<SpecToken>, from: int, to: int) -> bool {
    from < to <= toks.len()
}

/// Decimal value of a string of ASCII digits.
pub open spec fn spec_decimal_value(ds: Seq<char>) -> nat
    decreases ds.len(),
{
    if ds.len() == 0 {
        0
    } else {
        spec_decimal_value(ds.drop_last()) * 10 + ((ds.last() as nat) - ('0' as nat)) as nat
    }
}

/// The array index a numeric literal stands for: its integer part,
/// saturated to `usize::MAX`; zero for a negative literal.
pub open spec fn spec_literal_index(n: SpecNumberLit) -> usize {
    let v = spec_decimal_value(n.text.take(spec_digits_end(n.text, 0)));
    if n.negative {
        0
    } else if v > usize::MAX {
        usize::MAX
    } else {
        v as usize
    }
}

/// A field path after its first key: `.key` and `[index]` steps.
pub open spec fn spec_field_rest(toks: Seq<SpecToken>, texts: Seq<Seq<char>>, steps: Seq<SpecPathStep>, pos: int) -> SpecStep
    decreases toks.len() - pos,
{
    match spec_peek(toks, pos) {
        Some(SpecToken::Dot) => match spec_peek(toks, pos + 1) {
            Some(SpecToken::Ident(name)) => spec_field_rest(
                toks, texts,
                steps.push(SpecPathStep::Key(name)),
                pos + 2,
            ),
            _ => Err(spec_unexpected(toks, texts, pos + 1)),
        },
        Some(SpecToken::LBracket) => match spec_peek(toks, pos + 1) {
            Some(SpecToken::Number(n)) => match spec_peek(toks, pos + 2) {
                Some(SpecToken::RBracket) => spec_field_rest(
                    toks, texts,
                    steps.push(SpecPathStep::Index(spec_literal_index(n))),
                    pos + 3,
                ),
                _ => Err(spec_unexpected(toks, texts, pos + 2)),
            },
            _ => Err(spec_unexpected(toks, texts, pos + 1)),
        },
        _ => Ok((SpecExpr::Field(steps), pos)),
    }
}

/// A field path: `.` followed by a key, then more steps.
pub open spec fn spec_parse_field(toks: Seq<SpecToken>, texts: Seq<Seq<char>>, pos: int) -> SpecStep {
    match spec_peek(toks, pos) {
        Some(SpecToken::Dot) => match spec_peek(toks, pos + 1) {
            Some(SpecToken::Ident(name)) => spec_field_rest(
                toks, texts,
                seq![SpecPathStep::Key(name)],
                pos + 2,
            ),
            _ => Err(spec_unexpected(toks, texts, pos + 1)),
        },
        _ => Err(spec_unexpected(toks, texts, pos)),
    }
}

pub open spec fn spec_parse_primary(toks: Seq<SpecToken>, texts: Seq<Seq<char>>, pos: int) -> SpecStep
    decreases toks.len() - pos, 1nat,
{
    match spec_peek(toks, pos) {
        Some(SpecToken::LParen) => match spec_parse_or(toks, texts, pos + 1) {
            Ok((e, p)) => if spec_peek(toks, p) == Some(SpecToken::RParen) {
                Ok((e, p + 1))
            } else {
                Err(spec_unexpected(toks, texts, p))
            },
            Err(err) => Err(err),
        },
        Some(SpecToken::Dot) => spec_parse_field(toks, texts, pos),
        Some(SpecToken::Number(n)) => Ok((SpecExpr::Literal(SpecLiteral::Number(n)), pos + 1)),
        Some(SpecToken::StringLit(s)) => Ok((SpecExpr::Literal(SpecLiteral::Str(s)), pos + 1)),
        Some(SpecToken::Bool(b)) => Ok((SpecExpr::Literal(SpecLiteral::Bool(b)), pos + 1)),
        _ => Err(spec_unexpected(toks, texts, pos)),
    }
}

/// The multiplicative operator a token stands for.
pub open spec fn spec_mul_op(t: Option<SpecToken>) -> Option<BinOp> {
    match t {
        Some(SpecToken::Op(s)) => if s == seq!['*'] {
            Some(BinOp::Mul)
        } else if s == seq!['/'] {
            Some(BinOp::Div)
        } else {
            None
        },
        _ => None,
    }
}

/// The additive operator a token stands for.
pub open spec fn spec_add_op(t: Option<SpecToken>) -> Option<BinOp> {
    match t {
        Some(SpecToken::Op(s)) => if s == seq!['+'] {
            Some(BinOp::Add)
        } else if s == seq!['-'] {
            Some(BinOp::Sub)
        } else {
            None
        },
        _ => None,
    }
}

/// The comparison operator a token stands for.
pub open spec fn spec_comparison_op(t: Option<SpecToken>) -> Option<BinOp> {
    match t {
        Some(SpecToken::Op(s)) => if s == seq!['=', '='] {
            Some(BinOp::Eq)
        } else if s == seq!['!', '='] {
            Some(BinOp::Neq)
        } else if s == seq!['>'] {
            Some(BinOp::Gt)
        } else if s == seq!['<'] {
            Some(BinOp::Lt)
        } else if s == seq!['>', '='] {
            Some(BinOp::Gte)
        } else if s == seq!['<', '='] {
            Some(BinOp::Lte)
        } else {
            None
        },
        _ => None,
    }
}

pub open spec fn bin(op: BinOp, l: SpecExpr, r: SpecExpr) -> SpecExpr {
    SpecExpr::BinaryOp { op, left: Box::new(l), right: Box::new(r) }
}

/// Left-associative chain of `*` and `/` after the first operand `left`.
pub open spec fn spec_mul_rest(toks: Seq<SpecToken>, texts: Seq<Seq<char>>, left: SpecExpr, pos: int) -> SpecStep
    decreases toks.len() - pos, 2nat,
{
    match spec_mul_op(spec_peek(toks, pos)) {
        Some(op) => match spec_parse_primary(toks, texts, pos + 1) {
            Ok((r, p)) => if advanced(toks, pos + 1, p) {
                spec_mul_rest(toks, texts, bin(op, left, r), p)
            } else {
                Err(SpecExprError::UnexpectedEof)
            },
            Err(err) => Err(err),
        },
        None => Ok((left, pos)),
    }
}

pub open spec fn spec_parse_mul(toks: Seq<SpecToken>, texts: Seq<Seq<char>>, pos: int) -> SpecStep
    decreases toks.len() - pos, 2nat,
{
    match spec_parse_primary(toks, texts, pos) {
        Ok((l, p)) => if advanced(toks, pos, p) {
            spec_mul_rest(toks, texts, l, p)
        } else {
            Err(SpecExprError::UnexpectedEof)
        },
        Err(err) => Err(err),
    }
}

/// Left-associative chain of `+` and `-` after the first operand `left`.
pub open spec fn spec_add_rest(toks: Seq<SpecToken>, texts: Seq<Seq<char>>, left: SpecExpr, pos: int) -> SpecStep
    decreases toks.len() - pos, 3nat,
{
    match spec_add_op(spec_peek(toks, pos)) {
        Some(op) => match spec_parse_mul(toks, texts, pos + 1) {
            Ok((r, p)) => if advanced(toks, pos + 1, p) {
                spec_add_rest(toks, texts, bin(op, left, r), p)
            } else {
                Err(SpecExprError::UnexpectedEof)
            },
            Err(err) => Err(err),
        },
        None => Ok((left, pos)),
    }
}

pub open spec fn spec_parse_add(toks: Seq<SpecToken>, texts: Seq<Seq<char>>, pos: int) -> SpecStep
    decreases toks.len() - pos, 3nat,
{
    match spec_parse_mul(toks, texts, pos) {
        Ok((l, p)) => if advanced(toks, pos, p) {
            spec_add_rest(toks, texts, l, p)
        } else {
            Err(SpecExprError::UnexpectedEof)
        },
        Err(err) => Err(err),
    }
}

/// At most one comparison between two additive expressions.
pub open spec fn spec_parse_comparison(toks: Seq<SpecToken>, texts: Seq<Seq<char>>, pos: int) -> SpecStep
    decreases toks.len() - pos, 4nat,
{
    match spec_parse_add(toks, texts, pos) {
        Ok((l, p)) => match spec_comparison_op(spec_peek(toks, p)) {
            Some(op) => if advanced(toks, pos, p) {
                match spec_parse_add(toks, texts, p + 1) {
                    Ok((r, q)) => Ok((bin(op, l, r), q)),
                    Err(err) => Err(err),
                }
            } else {
                Err(SpecExprError::UnexpectedEof)
            },
            None => Ok((l, p)),
        },
        Err(err) => Err(err),
    }
}

/// Prefix `not`, any number of times, then a comparison.
pub open spec fn spec_parse_not(toks: Seq<SpecToken>, texts: Seq<Seq<char>>, pos: int) -> SpecStep
    decreases toks.len() - pos, 5nat,
{
    if spec_peek(toks, pos) == Some(SpecToken::Not) {
        match spec_parse_not(toks, texts, pos + 1) {
            Ok((e, p)) => Ok((SpecExpr::UnaryOp { op: UnaryOp::Not, operand: Box::new(e) }, p)),
            Err(err) => Err(err),
        }
    } else {
        spec_parse_comparison(toks, texts, pos)
    }
}

/// Left-associative chain of `and` after the first operand `left`.
pub open spec fn spec_and_rest(toks: Seq<SpecToken>, texts: Seq<Seq<char>>, left: SpecExpr, pos: int) -> SpecStep
    decreases toks.len() - pos, 6nat,
{
    if spec_peek(toks, pos) == Some(SpecToken::And) {
        match spec_parse_not(toks, texts, pos + 1) {
            Ok((r, p)) => if advanced(toks, pos + 1, p) {
                spec_and_rest(toks, texts, bin(BinOp::And, left, r), p)
            } else {
                Err(SpecExprError::UnexpectedEof)
            },
            Err(err) => Err(err),
        }
    } else {
        Ok((left, pos))
    }
}

pub open spec fn spec_parse_and(toks: Seq<SpecToken>, texts: Seq<Seq<char>>, pos: int) -> SpecStep
    decreases toks.len() - pos, 6nat,
{
    match spec_parse_not(toks, texts, pos) {
        Ok((l, p)) => if advanced(toks, pos, p) {
            spec_and_rest(toks, texts, l, p)
        } else {
            Err(SpecExprError::UnexpectedEof)
        },
        Err(err) => Err(err),
    }
}

/// Left-associative chain of `or` after the first operand `left`.
pub open spec fn spec_or_rest(toks: Seq<SpecToken>, texts: Seq<Seq<char>>, left: SpecExpr, pos: int) -> SpecStep
    decreases toks.len() - pos, 7nat,
{
    if spec_peek(toks, pos) == Some(SpecToken::Or) {
        match spec_parse_and(toks, texts, pos + 1) {
            Ok((r, p)) => if advanced(toks, pos + 1, p) {
                spec_or_rest(toks, texts, bin(BinOp::Or, left, r), p)
            } else {
                Err(SpecExprError::UnexpectedEof)
            },
            Err(err) => Err(err),
        }
    } else {
        Ok((left, pos))
    }
}

pub open spec fn spec_parse_or(toks: Seq<SpecToken>, texts: Seq<Seq<char>>, pos: int) -> SpecStep
    decreases toks.len() - pos, 7nat,
{
    match spec_parse_and(toks, texts, pos) {
        Ok((l, p)) => if advanced(toks, pos, p) {
            spec_or_rest(toks, texts, l, p)
        } else {
            Err(SpecExprError::UnexpectedEof)
        },
        Err(err) => Err(err),
    }
}

/// Parses a whole token sequence: it must be non-empty and the expression
/// must use every token.
pub open spec fn spec_parse_tokens(toks: Seq<SpecToken>, texts: Seq<Seq<char>>) -> Result<SpecExpr, SpecExprError> {
    if toks.len() == 0 {
        Err(SpecExprError::UnexpectedEof)
    } else {
        match spec_parse_or(toks, texts, 0) {
            Ok((e, p)) => if p < toks.len() {
                Err(spec_unexpected(toks, texts, p))
            } else {
                Ok(e)
            },
            Err(err) => Err(err),
        }
    }
}


/// A comparison's operator is the one its token spells: after an additive
/// operand ending at `p`, an operator token `==`, `!=`, `>`, `<`, `>=` or
/// `<=` followed by a second additive operand gives the comparison `Eq`,
/// `Neq`, `Gt`, `Lt`, `Gte` or `Lte` of the two operands.
pub proof fn law_comparison_operator_from_text(
    toks: Seq<SpecToken>,
    texts: Seq<Seq<char>>,
    pos: int,
    l: SpecExpr,
    p: int,
    r: SpecExpr,
    q: int,
    op_text: Seq<char>,
)
    requires
        spec_parse_add(toks, texts, pos) == Ok::<(SpecExpr, int), SpecExprError>((l, p)),
        pos < p < toks.len(),
        toks[p] == SpecToken::Op(op_text),
        spec_parse_add(toks, texts, p + 1) == Ok::<(SpecExpr, int), SpecExprError>((r, q)),
    ensures
        op_text == seq!['>', '='] ==> spec_parse_comparison(toks, texts, pos) == Ok::<(SpecExpr, int), SpecExprError>(
            (SpecExpr::BinaryOp { op: BinOp::Gte, left: Box::new(l), right: Box::new(r) }, q),
        ),
        op_text == seq!['<', '='] ==> spec_parse_comparison(toks, texts, pos) == Ok::<(SpecExpr, int), SpecExprError>(
            (SpecExpr::BinaryOp { op: BinOp::Lte, left: Box::new(l), right: Box::new(r) }, q),
        ),
        op_text == seq!['>'] ==> spec_parse_comparison(toks, texts, pos) == Ok::<(SpecExpr, int), SpecExprError>(
            (SpecExpr::BinaryOp { op: BinOp::Gt, left: Box::new(l), right: Box::new(r) }, q),
        ),
        op_text == seq!['<'] ==> spec_parse_comparison(toks, texts, pos) == Ok::<(SpecExpr, int), SpecExprError>(
            (SpecExpr::BinaryOp { op: BinOp::Lt, left: Box::new(l), right: Box::new(r) }, q),
        ),
        op_text == seq!['=', '='] ==> spec_parse_comparison(toks, texts, pos) == Ok::<(SpecExpr, int), SpecExprError>(
            (SpecExpr::BinaryOp { op: BinOp::Eq, left: Box::new(l), right: Box::new(r) }, q),
        ),
        op_text == seq!['!', '='] ==> spec_parse_comparison(toks, texts, pos) == Ok::<(SpecExpr, int), SpecExprError>(
            (SpecExpr::BinaryOp { op: BinOp::Neq, left: Box::new(l), right: Box::new(r) }, q),
        ),
{
    assert(seq!['>', '='] != seq!['>']) by {
        assert(seq!['>', '='].len() != seq!['>'].len());
    }
    assert(seq!['<', '='] != seq!['<']) by {
        assert(seq!['<', '='].len() != seq!['<'].len());
    }
    assert(seq!['>', '='] != seq!['=', '=']) by {
        assert(seq!['>', '='][0] != seq!['=', '='][0]);
    }
    assert(seq!['>', '='] != seq!['!', '=']) by {
        assert(seq!['>', '='][0] != seq!['!', '='][0]);
    }
    assert(seq!['<', '='] != seq!['=', '=']) by {
        assert(seq!['<', '='][0] != seq!['=', '='][0]);
    }
    assert(seq!['<', '='] != seq!['!', '=']) by {
        assert(seq!['<', '='][0] != seq!['!', '='][0]);
    }
    assert(seq!['<'] != seq!['>']) by {
        assert(seq!['<'][0] != seq!['>'][0]);
    }
    assert(seq!['=', '='] != seq!['!', '=']) by {
        assert(seq!['=', '='][0] != seq!['!', '='][0]);
    }
    assert(seq!['<', '='] != seq!['>', '=']) by {
        assert(seq!['<', '='][0] != seq!['>', '='][0]);
    }
    assert(seq!['=', '='] != seq!['>']) by {
        assert(seq!['=', '='].len() != seq!['>'].len());
    }
    assert(seq!['=', '='] != seq!['<']) by {
        assert(seq!['=', '='].len() != seq!['<'].len());
    }
    assert(seq!['!', '='] != seq!['>']) by {
        assert(seq!['!', '='].len() != seq!['>'].len());
    }
    assert(seq!['!', '='] != seq!['<']) by {
        assert(seq!['!', '='].len() != seq!['<'].len());
    }
    assert(seq!['<', '='] != seq!['>']) by {
        assert(seq!['<', '='].len() != seq!['>'].len());
    }
    assert(seq!['>', '='] != seq!['<']) by {
        assert(seq!['>', '='].len() != seq!['<'].len());
    }
    assert(spec_peek(toks, p) == Some(SpecToken::Op(op_text)));
}

} // verus!

verus! {

// ---------------------------------------------------------------------------
// Executable parser
// ---------------------------------------------------------------------------

proof fn lemma_peek(toks: Seq<Token>, p: int)
    ensures
        0 <= p < toks.len() ==> spec_peek(view_tokens(toks), p) == Some(toks[p]@),
        !(0 <= p < toks.len()) ==> spec_peek(view_tokens(toks), p) is None,
{
}

fn unexpected_at(toks: &Vec<Token>, texts: &Vec<String>, pos: usize) -> (e: ExprError)
    requires
        texts@.len() == toks@.len(),
    ensures
        e@ == spec_unexpected(view_tokens(toks@), view_strings(texts@), pos as int),
{
    proof {
        lemma_peek(toks@, pos as int);
    }
    if pos < toks.len() {
        ExprError::UnexpectedToken(texts[pos].clone())
    } else {
        ExprError::UnexpectedEof
    }
}

/// True when the string is the single character `a`.
fn string_is1(s: &String, a: char) -> (b: bool)
    ensures
        b == (s@ == seq![a]),
{
    let cs = str_chars(s.as_str());
    let r = cs.len() == 1 && cs[0] == a;
    proof {
        if cs@.len() == 1 {
            if cs@[0] == a {
                assert(cs@ =~= seq![a]);
            } else {
                assert(seq![a][0] == a);
            }
        }
    }
    r
}

/// True when the string is the two characters `a`, `b`.
fn string_is2(s: &String, a: char, b: char) -> (r: bool)
    ensures
        r == (s@ == seq![a, b]),
{
    let cs = str_chars(s.as_str());
    let r = cs.len() == 2 && cs[0] == a && cs[1] == b;
    proof {
        if cs@.len() == 2 {
            if cs@[0] == a && cs@[1] == b {
                assert(cs@ =~= seq![a, b]);
            } else {
                assert(seq![a, b][0] == a && seq![a, b][1] == b);
            }
        }
    }
    r
}

/// The array index a numeric literal stands for.
fn literal_index(n: &NumberLit) -> (r: usize)
    ensures
        r == spec_literal_index(n@),
{
    if n.negative {
        return 0;
    }
    let cs = str_chars(n.text.as_str());
    let e = crate::expr::lexer::scan_digits(&cs, 0);
    proof {
        crate::expr::lexer::lemma_digits_end(cs@, 0);
    }
    let mut v: usize = 0;
    let mut saturated = false;
    let mut i: usize = 0;
    assert(cs@.take(0) =~= Seq::<char>::empty());
    while i < e
        invariant
            i <= e <= cs@.len(),
            e == spec_digits_end(cs@, 0),
            cs@ == n.text@,
            forall|j: int| 0 <= j < e ==> spec_is_ascii_digit(#[trigger] cs@[j]),
            !saturated ==> v == spec_decimal_value(cs@.take(i as int)),
            saturated ==> spec_decimal_value(cs@.take(i as int)) > usize::MAX,
        decreases e - i,
    {
        let c = cs[i];
        let d = (c as u32 - '0' as u32) as usize;
        assert(cs@.take(i + 1).drop_last() =~= cs@.take(i as int));
        assert(cs@.take(i + 1).last() == c);
        if !saturated {
            match v.checked_mul(10) {
                Some(m) => match m.checked_add(d) {
                    Some(x) => {
                        v = x;
                    },
                    None => {
                        saturated = true;
                    },
                },
                None => {
                    saturated = true;
                },
            }
        }
        i = i + 1;
    }
    assert(cs@.take(e as int) == n.text@.take(spec_digits_end(n.text@, 0)));
    if saturated {
        usize::MAX
    } else {
        v
    }
}

fn parse_field(toks: &Vec<Token>, texts: &Vec<String>, pos: usize) -> (r: Result<(Expr, usize), ExprError>)
    requires
        pos <= toks@.len(),
        texts@.len() == toks@.len(),
    ensures
        view_step_result(r) == spec_parse_field(view_tokens(toks@), view_strings(texts@), pos as int),
        r matches Ok((_, p)) ==> pos < p <= toks@.len(),
{
    let ghost ts = view_tokens(toks@);
    let ghost xs = view_strings(texts@);
    proof {
        lemma_peek(toks@, pos as int);
        lemma_peek(toks@, pos + 1);
    }
    let is_dot = pos < toks.len() && match &toks[pos] {
        Token::Dot => true,
        _ => false,
    };
    if !is_dot {
        return Err(unexpected_at(toks, texts, pos));
    }
    let first = if pos + 1 < toks.len() {
        match &toks[pos + 1] {
            Token::Ident(name) => name.clone(),
            _ => {
                return Err(unexpected_at(toks, texts, pos + 1));
            },
        }
    } else {
        return Err(unexpected_at(toks, texts, pos + 1));
    };
    let mut steps: Vec<PathStep> = Vec::new();
    steps.push(PathStep::Key(first));
    assert(view_steps(steps@) =~= seq![SpecPathStep::Key(first@)]);
    let mut p = pos + 2;
    loop
        invariant
            pos + 2 <= p <= toks@.len(),
            ts == view_tokens(toks@),
            xs == view_strings(texts@),
            texts@.len() == toks@.len(),
            spec_parse_field(ts, xs, pos as int) == spec_field_rest(ts, xs, view_steps(steps@), p as int),
        ensures
            pos + 2 <= p <= toks@.len(),
            spec_parse_field(ts, xs, pos as int) == Ok::<(SpecExpr, int), SpecExprError>((SpecExpr::Field(view_steps(steps@)), p as int)),
        decreases toks.len() - p,
    {
        let ghost old_steps = steps@;
        proof {
            lemma_peek(toks@, p as int);
            lemma_peek(toks@, p + 1);
            lemma_peek(toks@, p + 2);
        }
        let is_dot = p < toks.len() && match &toks[p] {
            Token::Dot => true,
            _ => false,
        };
        let is_bracket = p < toks.len() && match &toks[p] {
            Token::LBracket => true,
            _ => false,
        };
        if is_dot {
            if p + 1 < toks.len() {
                match &toks[p + 1] {
                    Token::Ident(name) => {
                        steps.push(PathStep::Key(name.clone()));
                    },
                    _ => {
                        return Err(unexpected_at(toks, texts, p + 1));
                    },
                }
            } else {
                return Err(unexpected_at(toks, texts, p + 1));
            }
            assert(view_steps(steps@) =~= view_steps(old_steps).push(steps@.last()@));
            p = p + 2;
        } else if is_bracket {
            if p + 1 < toks.len() {
                match &toks[p + 1] {
                    Token::Number(n) => {
                        let closes = p + 2 < toks.len() && match &toks[p + 2] {
                            Token::RBracket => true,
                            _ => false,
                        };
                        if !closes {
                            return Err(unexpected_at(toks, texts, p + 2));
                        }
                        steps.push(PathStep::Index(literal_index(n)));
                    },
                    _ => {
                        return Err(unexpected_at(toks, texts, p + 1));
                    },
                }
            } else {
                return Err(unexpected_at(toks, texts, p + 1));
            }
            assert(view_steps(steps@) =~= view_steps(old_steps).push(steps@.last()@));
            p = p + 3;
        } else {
            break;
        }
    }
    Ok((Expr::Field(steps), p))
}

fn parse_primary(toks: &Vec<Token>, texts: &Vec<String>, pos: usize) -> (r: Result<(Expr, usize), ExprError>)
    requires
        pos <= toks@.len(),
        texts@.len() == toks@.len(),
    ensures
        view_step_result(r) == spec_parse_primary(view_tokens(toks@), view_strings(texts@), pos as int),
        r matches Ok((_, p)) ==> pos < p <= toks@.len(),
    decreases toks@.len() - pos, 1nat,
{
    proof {
        lemma_peek(toks@, pos as int);
    }
    if pos >= toks.len() {
        return Err(ExprError::UnexpectedEof);
    }
    match &toks[pos] {
        Token::LParen => {
            match parse_or(toks, texts, pos + 1) {
                Ok((e, p)) => {
                    proof {
                        lemma_peek(toks@, p as int);
                    }
                    let closes = p < toks.len() && match &toks[p] {
                        Token::RParen => true,
                        _ => false,
                    };
                    if closes {
                        Ok((e, p + 1))
                    } else {
                        Err(unexpected_at(toks, texts, p))
                    }
                },
                Err(err) => Err(err),
            }
        },
        Token::Dot => parse_field(toks, texts, pos),
        Token::Number(n) => Ok(
            (Expr::Literal(Literal::Number(NumberLit { negative: n.negative, text: n.text.clone() })), pos + 1),
        ),
        Token::StringLit(s) => Ok((Expr::Literal(Literal::Str(s.clone())), pos + 1)),
        Token::Bool(b) => Ok((Expr::Literal(Literal::Bool(*b)), pos + 1)),
        _ => Err(unexpected_at(toks, texts, pos)),
    }
}

fn mul_op_at(toks: &Vec<Token>, p: usize) -> (r: Option<BinOp>)
    ensures
        r == spec_mul_op(spec_peek(view_tokens(toks@), p as int)),
        r is Some ==> p < toks.len(),
{
    proof {
        lemma_peek(toks@, p as int);
    }
    if p < toks.len() {
        match &toks[p] {
            Token::Op(s) => {
                if string_is1(s, '*') {
                    Some(BinOp::Mul)
                } else if string_is1(s, '/') {
                    Some(BinOp::Div)
                } else {
                    None
                }
            },
            _ => None,
        }
    } else {
        None
    }
}

fn add_op_at(toks: &Vec<Token>, p: usize) -> (r: Option<BinOp>)
    ensures
        r == spec_add_op(spec_peek(view_tokens(toks@), p as int)),
        r is Some ==> p < toks.len(),
{
    proof {
        lemma_peek(toks@, p as int);
    }
    if p < toks.len() {
        match &toks[p] {
            Token::Op(s) => {
                if string_is1(s, '+') {
                    Some(BinOp::Add)
                } else if string_is1(s, '-') {
                    Some(BinOp::Sub)
                } else {
                    None
                }
            },
            _ => None,
        }
    } else {
        None
    }
}

fn comparison_op_at(toks: &Vec<Token>, p: usize) -> (r: Option<BinOp>)
    ensures
        r == spec_comparison_op(spec_peek(view_tokens(toks@), p as int)),
        r is Some ==> p < toks.len(),
{
    proof {
        lemma_peek(toks@, p as int);
    }
    if p < toks.len() {
        match &toks[p] {
            Token::Op(s) => {
                if string_is2(s, '=', '=') {
                    Some(BinOp::Eq)
                } else if string_is2(s, '!', '=') {
                    Some(BinOp::Neq)
                } else if string_is1(s, '>') {
                    Some(BinOp::Gt)
                } else if string_is1(s, '<') {
                    Some(BinOp::Lt)
                } else if string_is2(s, '>', '=') {
                    Some(BinOp::Gte)
                } else if string_is2(s, '<', '=') {
                    Some(BinOp::Lte)
                } else {
                    None
                }
            },
            _ => None,
        }
    } else {
        None
    }
}

fn is_token_at(toks: &Vec<Token>, p: usize, which: u8) -> (b: bool)
    ensures
        which == 0 ==> b == (spec_peek(view_tokens(toks@), p as int) == Some(SpecToken::Not)),
        which == 1 ==> b == (spec_peek(view_tokens(toks@), p as int) == Some(SpecToken::And)),
        which == 2 ==> b == (spec_peek(view_tokens(toks@), p as int) == Some(SpecToken::Or)),
        b ==> p < toks.len(),
{
    proof {
        lemma_peek(toks@, p as int);
    }
    if p < toks.len() {
        match &toks[p] {
            Token::Not => which == 0,
            Token::And => which == 1,
            Token::Or => which == 2,
            _ => false,
        }
    } else {
        false
    }
}

fn parse_mul(toks: &Vec<Token>, texts: &Vec<String>, pos: usize) -> (r: Result<(Expr, usize), ExprError>)
    requires
        pos <= toks@.len(),
        texts@.len() == toks@.len(),
    ensures
        view_step_result(r) == spec_parse_mul(view_tokens(toks@), view_strings(texts@), pos as int),
        r matches Ok((_, p)) ==> pos < p <= toks@.len(),
    decreases toks@.len() - pos, 2nat,
{
    let ghost ts = view_tokens(toks@);
    let ghost xs = view_strings(texts@);
    let (mut left, mut p) = match parse_primary(toks, texts, pos) {
        Ok(x) => x,
        Err(err) => {
            return Err(err);
        },
    };
    loop
        invariant
            pos < p <= toks@.len(),
            ts == view_tokens(toks@),
            xs == view_strings(texts@),
            texts@.len() == toks@.len(),
            spec_parse_mul(ts, xs, pos as int) == spec_mul_rest(ts, xs, view_expr(left), p as int),
        ensures
            pos < p <= toks@.len(),
            spec_parse_mul(ts, xs, pos as int) == Ok::<(SpecExpr, int), SpecExprError>((view_expr(left), p as int)),
        decreases toks.len() - p,
    {
        match mul_op_at(toks, p) {
            Some(op) => {
                match parse_primary(toks, texts, p + 1) {
                    Ok((right, q)) => {
                        left = Expr::BinaryOp { op, left: Box::new(left), right: Box::new(right) };
                        p = q;
                    },
                    Err(err) => {
                        return Err(err);
                    },
                }
            },
            None => {
                break;
            },
        }
    }
    Ok((left, p))
}

fn parse_add(toks: &Vec<Token>, texts: &Vec<String>, pos: usize) -> (r: Result<(Expr, usize), ExprError>)
    requires
        pos <= toks@.len(),
        texts@.len() == toks@.len(),
    ensures
        view_step_result(r) == spec_parse_add(view_tokens(toks@), view_strings(texts@), pos as int),
        r matches Ok((_, p)) ==> pos < p <= toks@.len(),
    decreases toks@.len() - pos, 3nat,
{
    let ghost ts = view_tokens(toks@);
    let ghost xs = view_strings(texts@);
    let (mut left, mut p) = match parse_mul(toks, texts, pos) {
        Ok(x) => x,
        Err(err) => {
            return Err(err);
        },
    };
    loop
        invariant
            pos < p <= toks@.len(),
            ts == view_tokens(toks@),
            xs == view_strings(texts@),
            texts@.len() == toks@.len(),
            spec_parse_add(ts, xs, pos as int) == spec_add_rest(ts, xs, view_expr(left), p as int),
        ensures
            pos < p <= toks@.len(),
            spec_parse_add(ts, xs, pos as int) == Ok::<(SpecExpr, int), SpecExprError>((view_expr(left), p as int)),
        decreases toks.len() - p,
    {
        match add_op_at(toks, p) {
            Some(op) => {
                match parse_mul(toks, texts, p + 1) {
                    Ok((right, q)) => {
                        left = Expr::BinaryOp { op, left: Box::new(left), right: Box::new(right) };
                        p = q;
                    },
                    Err(err) => {
                        return Err(err);
                    },
                }
            },
            None => {
                break;
            },
        }
    }
    Ok((left, p))
}

fn parse_comparison(toks: &Vec<Token>, texts: &Vec<String>, pos: usize) -> (r: Result<(Expr, usize), ExprError>)
    requires
        pos <= toks@.len(),
        texts@.len() == toks@.len(),
    ensures
        view_step_result(r) == spec_parse_comparison(view_tokens(toks@), view_strings(texts@), pos as int),
        r matches Ok((_, p)) ==> pos < p <= toks@.len(),
    decreases toks@.len() - pos, 4nat,
{
    let (left, p) = match parse_add(toks, texts, pos) {
        Ok(x) => x,
        Err(err) => {
            return Err(err);
        },
    };
    match comparison_op_at(toks, p) {
        Some(op) => {
            match parse_add(toks, texts, p + 1) {
                Ok((right, q)) => Ok(
                    (Expr::BinaryOp { op, left: Box::new(left), right: Box::new(right) }, q),
                ),
                Err(err) => Err(err),
            }
        },
        None => Ok((left, p)),
    }
}

fn parse_not(toks: &Vec<Token>, texts: &Vec<String>, pos: usize) -> (r: Result<(Expr, usize), ExprError>)
    requires
        pos <= toks@.len(),
        texts@.len() == toks@.len(),
    ensures
        view_step_result(r) == spec_parse_not(view_tokens(toks@), view_strings(texts@), pos as int),
        r matches Ok((_, p)) ==> pos < p <= toks@.len(),
    decreases toks@.len() - pos, 5nat,
{
    if is_token_at(toks, pos, 0) {
        match parse_not(toks, texts, pos + 1) {
            Ok((e, p)) => Ok((Expr::UnaryOp { op: UnaryOp::Not, operand: Box::new(e) }, p)),
            Err(err) => Err(err),
        }
    } else {
        parse_comparison(toks, texts, pos)
    }
}

fn parse_and(toks: &Vec<Token>, texts: &Vec<String>, pos: usize) -> (r: Result<(Expr, usize), ExprError>)
    requires
        pos <= toks@.len(),
        texts@.len() == toks@.len(),
    ensures
        view_step_result(r) == spec_parse_and(view_tokens(toks@), view_strings(texts@), pos as int),
        r matches Ok((_, p)) ==> pos < p <= toks@.len(),
    decreases toks@.len() - pos, 6nat,
{
    let ghost ts = view_tokens(toks@);
    let ghost xs = view_strings(texts@);
    let (mut left, mut p) = match parse_not(toks, texts, pos) {
        Ok(x) => x,
        Err(err) => {
            return Err(err);
        },
    };
    loop
        invariant
            pos < p <= toks@.len(),
            ts == view_tokens(toks@),
            xs == view_strings(texts@),
            texts@.len() == toks@.len(),
            spec_parse_and(ts, xs, pos as int) == spec_and_rest(ts, xs, view_expr(left), p as int),
        ensures
            pos < p <= toks@.len(),
            spec_parse_and(ts, xs, pos as int) == Ok::<(SpecExpr, int), SpecExprError>((view_expr(left), p as int)),
        decreases toks.len() - p,
    {
        if !is_token_at(toks, p, 1) {
            break;
        }
        match parse_not(toks, texts, p + 1) {
            Ok((right, q)) => {
                left = Expr::BinaryOp { op: BinOp::And, left: Box::new(left), right: Box::new(right) };
                p = q;
            },
            Err(err) => {
                return Err(err);
            },
        }
    }
    Ok((left, p))
}

fn parse_or(toks: &Vec<Token>, texts: &Vec<String>, pos: usize) -> (r: Result<(Expr, usize), ExprError>)
    requires
        pos <= toks@.len(),
        texts@.len() == toks@.len(),
    ensures
        view_step_result(r) == spec_parse_or(view_tokens(toks@), view_strings(texts@), pos as int),
        r matches Ok((_, p)) ==> pos < p <= toks@.len(),
    decreases toks@.len() - pos, 7nat,
{
    let ghost ts = view_tokens(toks@);
    let ghost xs = view_strings(texts@);
    let (mut left, mut p) = match parse_and(toks, texts, pos) {
        Ok(x) => x,
        Err(err) => {
            return Err(err);
        },
    };
    loop
        invariant
            pos < p <= toks@.len(),
            ts == view_tokens(toks@),
            xs == view_strings(texts@),
            texts@.len() == toks@.len(),
            spec_parse_or(ts, xs, pos as int) == spec_or_rest(ts, xs, view_expr(left), p as int),
        ensures
            pos < p <= toks@.len(),
            spec_parse_or(ts, xs, pos as int) == Ok::<(SpecExpr, int), SpecExprError>((view_expr(left), p as int)),
        decreases toks.len() - p,
    {
        if !is_token_at(toks, p, 2) {
            break;
        }
        match parse_and(toks, texts, p + 1) {
            Ok((right, q)) => {
                left = Expr::BinaryOp { op: BinOp::Or, left: Box::new(left), right: Box::new(right) };
                p = q;
            },
            Err(err) => {
                return Err(err);
            },
        }
    }
    Ok((left, p))
}

/// The texts the tokens are reported by, numbers written by
/// `number_debug`.
fn token_texts<N>(toks: &Vec<Token>, number_debug: &N) -> (r: Vec<String>) where N: Fn(&NumberLit) -> String
    requires
        forall|l: &NumberLit| number_debug.requires((l,)),
    ensures
        r@.len() == toks@.len(),
        forall|i: int| 0 <= i < toks@.len() ==> #[trigger] spec_token_text(*number_debug, toks@[i]@, r@[i]@),
{
    let mut r: Vec<String> = Vec::new();
    let mut i: usize = 0;
    while i < toks.len()
        invariant
            i <= toks@.len(),
            r@.len() == i,
            forall|l: &NumberLit| number_debug.requires((l,)),
            forall|j: int| 0 <= j < i ==> #[trigger] spec_token_text(*number_debug, toks@[j]@, r@[j]@),
        decreases toks.len() - i,
    {
        r.push(token_text(&toks[i], number_debug));
        i = i + 1;
    }
    r
}

/// The expression a token sequence parses to, or the error reported for
/// it, when the tokens are reported by the texts `texts`.
pub open spec fn spec_parse_result<N>(number_debug: N, toks: Seq<SpecToken>, r: Result<SpecExpr, SpecExprError>) -> bool where
    N: Fn(&NumberLit) -> String,
 {
    exists|texts: Seq<Seq<char>>|
        texts.len() == toks.len() && (forall|i: int|
            0 <= i < toks.len() ==> #[trigger] spec_token_text(number_debug, toks[i], texts[i]))
            && r == spec_parse_tokens(toks, texts)
}

/// Parses an expression string into an AST. An unexpected token is
/// reported by its `{:?}` text, a number's value written by `number_debug`.
pub fn parse<N>(input: &str, number_debug: &N) -> (r: Result<Expr, ExprError>) where N: Fn(&NumberLit) -> String
    requires
        forall|l: &NumberLit| number_debug.requires((l,)),
    ensures
        match spec_tokenize(input@) {
            Ok(toks) => spec_parse_result(*number_debug, toks, view_parse_result(r)),
            Err(e) => view_parse_result(r) == Err::<SpecExpr, SpecExprError>(e),
        },
{
    let tokens = match tokenize(input) {
        Ok(t) => t,
        Err(err) => {
            return Err(err);
        },
    };
    let texts = token_texts(&tokens, number_debug);
    let ghost toks = view_tokens(tokens@);
    let ghost xs = view_strings(texts@);
    assert forall|i: int| 0 <= i < toks.len() implies #[trigger] spec_token_text(*number_debug, toks[i], xs[i]) by {
        assert(toks[i] == tokens@[i]@);
    }
    let r = if tokens.len() == 0 {
        Err(ExprError::UnexpectedEof)
    } else {
        match parse_or(&tokens, &texts, 0) {
            Ok((e, p)) => {
                if p < tokens.len() {
                    Err(unexpected_at(&tokens, &texts, p))
                } else {
                    Ok(e)
                }
            },
            Err(err) => Err(err),
        }
    };
    assert(view_parse_result(r) == spec_parse_tokens(toks, xs));
    assert(xs.len() == toks.len());
    r
}

} // verus!
