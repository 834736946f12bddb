//! Tokenizer for condition expressions.

use vstd::prelude::*;
use crate::expr::error::{ExprError, SpecExprError};
use crate::text::{
    chars_equal, collect_chars, is_alphabetic, is_alphanumeric, is_ascii_digit, spec_alphabetic,
    spec_alphanumeric, spec_is_ascii_digit, str_chars, substring,
};

verus! {

/// A numeric literal exactly as written: the digits (with an optional
/// fractional part) and whether a leading minus sign made it negative.
/// Its numeric value is `text` read as a decimal number, negated when
/// `negative` holds.
#[derive(Debug, PartialEq, Clone)]
pub struct NumberLit {
    pub negative: bool,
    pub text: String,
}

/// The mathematical value of a [`NumberLit`].
pub struct SpecNumberLit {
    pub negative: bool,
    pub text: Seq<char>,
}

impl View for NumberLit {
    type V = SpecNumberLit;

    open spec fn view(&self) -> SpecNumberLit {
        SpecNumberLit { negative: self.negative, text: self.text@ }
    }
}

/// All token variants produced by the tokenizer.
#[derive(Debug, PartialEq, Clone)]
pub enum Token {
    /// `.`
    Dot,
    /// An identifier (field name)
    Ident(String),
    /// Numeric literal
    Number(NumberLit),
    /// String literal (content without surrounding quotes)
    StringLit(String),
    /// Operator: `+`, `-`, `*`, `/`, `>`, `<`, `>=`, `<=`, `==`, `!=`
    Op(String),
    /// `(`
    LParen,
    /// `)`
    RParen,
    /// `[`
    LBracket,
    /// `]`
    RBracket,
    /// `and`
    And,
    /// `or`
    Or,
    /// `not`
    Not,
    /// `true` or `false`
    Bool(bool),
}

/// The mathematical value of a [`Token`].
pub enum SpecToken {
    Dot,
    Ident(Seq<char>),
    Number(SpecNumberLit),
    StringLit(Seq<char>),
    Op(Seq<char>),
    LParen,
    RParen,
    LBracket,
    RBracket,
    And,
    Or,
    Not,
    Bool(bool),
}

impl View for Token {
    type V = SpecToken;

    open spec fn view(&self) -> SpecToken {
        match self {
            Token::Dot => SpecToken::Dot,
            Token::Ident(s) => SpecToken::Ident(s@),
            Token::Number(n) => SpecToken::Number(n@),
            Token::StringLit(s) => SpecToken::StringLit(s@),
            Token::Op(s) => SpecToken::Op(s@),
            Token::LParen => SpecToken::LParen,
            Token::RParen => SpecToken::RParen,
            Token::LBracket => SpecToken::LBracket,
            Token::RBracket => SpecToken::RBracket,
            Token::And => SpecToken::And,
            Token::Or => SpecToken::Or,
            Token::Not => SpecToken::Not,
            Token::Bool(b) => SpecToken::Bool(*b),
        }
    }
}

/// The views of a sequence of tokens.
pub open spec fn view_tokens(ts: Seq<Token>) -> Seq<SpecToken> {
    ts.map_values(|t: Token| t@)
}

/// The view of a tokenizer result.
pub open spec fn view_token_result(r: Result<Vec<Token>, ExprError>) -> Result<
    Seq<SpecToken>,
    SpecExprError,
> {
    match r {
        Ok(v) => Ok(view_tokens(v@)),
        Err(e) => Err(e@),
    }
}

// ---------------------------------------------------------------------------
// Lexical structure
// ---------------------------------------------------------------------------

/// End of the run of ASCII digits that starts at `p`.
pub open spec fn spec_digits_end(cs: Seq<char>, p: int) -> int
    decreases cs.len() - p,
{
    if 0 <= p < cs.len() && spec_is_ascii_digit(cs[p]) {
        spec_digits_end(cs, p + 1)
    } else {
        p
    }
}

/// End of the number that starts at `p`: digits, then optionally a `.`
/// followed by digits.
pub open spec fn spec_number_end(cs: Seq<char>, p: int) -> int {
    let e = spec_digits_end(cs, p);
    if 0 <= e < cs.len() && cs[e] == '.' {
        spec_digits_end(cs, e + 1)
    } else {
        e
    }
}

/// Position of the closing quote of a string literal whose content starts at
/// `p` (a backslash makes the next character part of the content), or a
/// position at or past the end when there is none.
pub open spec fn spec_string_end(cs: Seq<char>, p: int) -> int
    decreases cs.len() + 1 - p,
{
    if 0 <= p < cs.len() && cs[p] != '"' {
        if cs[p] == '\\' {
            spec_string_end(cs, p + 2)
        } else {
            spec_string_end(cs, p + 1)
        }
    } else {
        p
    }
}

/// End of the run of identifier characters (alphanumeric or `_`) from `p`.
pub open spec fn spec_ident_end(cs: Seq<char>, p: int) -> int
    decreases cs.len() - p,
{
    if 0 <= p < cs.len() && (spec_alphanumeric(cs[p]) || cs[p] == '_') {
        spec_ident_end(cs, p + 1)
    } else {
        p
    }
}

/// The token a word stands for: a keyword, a boolean, or an identifier.
pub open spec fn spec_word_token(w: Seq<char>) -> SpecToken {
    if w == seq!['a', 'n', 'd'] {
        SpecToken::And
    } else if w == seq!['o', 'r'] {
        SpecToken::Or
    } else if w == seq!['n', 'o', 't'] {
        SpecToken::Not
    } else if w == seq!['t', 'r', 'u', 'e'] {
        SpecToken::Bool(true)
    } else if w == seq!['f', 'a', 'l', 's', 'e'] {
        SpecToken::Bool(false)
    } else {
        SpecToken::Ident(w)
    }
}

/// Tokens after which a `-` is a binary minus rather than a sign.
pub open spec fn spec_is_value_token(t: SpecToken) -> bool {
    match t {
        SpecToken::Number(_) | SpecToken::StringLit(_) | SpecToken::Ident(_) | SpecToken::Bool(
            _,
        ) | SpecToken::RParen | SpecToken::RBracket => true,
        _ => false,
    }
}

pub proof fn lemma_digits_end(cs: Seq<char>, p: int)
    requires
        0 <= p,
    ensures
        p <= spec_digits_end(cs, p),
        p <= cs.len() ==> spec_digits_end(cs, p) <= cs.len(),
        forall|j: int| p <= j < spec_digits_end(cs, p) ==> spec_is_ascii_digit(#[trigger] cs[j]),
    decreases cs.len() - p,
{
    if 0 <= p < cs.len() && spec_is_ascii_digit(cs[p]) {
        lemma_digits_end(cs, p + 1);
    }
}

pub proof fn lemma_number_end(cs: Seq<char>, p: int)
    requires
        0 <= p,
    ensures
        spec_digits_end(cs, p) <= spec_number_end(cs, p),
        p <= cs.len() ==> spec_number_end(cs, p) <= cs.len(),
{
    lemma_digits_end(cs, p);
    let e = spec_digits_end(cs, p);
    if 0 <= e < cs.len() && cs[e] == '.' {
        lemma_digits_end(cs, e + 1);
    }
}

pub proof fn lemma_string_end(cs: Seq<char>, p: int)
    requires
        0 <= p,
    ensures
        p <= spec_string_end(cs, p),
    decreases cs.len() + 1 - p,
{
    if 0 <= p < cs.len() && cs[p] != '"' {
        if cs[p] == '\\' {
            lemma_string_end(cs, p + 2);
        } else {
            lemma_string_end(cs, p + 1);
        }
    }
}

pub proof fn lemma_ident_end(cs: Seq<char>, p: int)
    requires
        0 <= p,
    ensures
        p <= spec_ident_end(cs, p),
        p <= cs.len() ==> spec_ident_end(cs, p) <= cs.len(),
    decreases cs.len() - p,
{
    if 0 <= p < cs.len() && (spec_alphanumeric(cs[p]) || cs[p] == '_') {
        lemma_ident_end(cs, p + 1);
    }
}

/// Tokenizes `cs` from position `pos`, with `acc` the tokens read so far.
pub open spec fn spec_tokenize_from(cs: Seq<char>, pos: int, acc: Seq<SpecToken>) -> Result<
    Seq<SpecToken>,
    SpecExprError,
>
    decreases cs.len() - pos,
{
    if pos < 0 || pos >= cs.len() {
        Ok(acc)
    } else {
        let c = cs[pos];
        let next_is_eq = pos + 1 < cs.len() && cs[pos + 1] == '=';
        if c == ' ' || c == '\t' || c == '\r' || c == '\n' {
            spec_tokenize_from(cs, pos + 1, acc)
        } else if c == '.' {
            spec_tokenize_from(cs, pos + 1, acc.push(SpecToken::Dot))
        } else if c == '(' {
            spec_tokenize_from(cs, pos + 1, acc.push(SpecToken::LParen))
        } else if c == ')' {
            spec_tokenize_from(cs, pos + 1, acc.push(SpecToken::RParen))
        } else if c == '[' {
            spec_tokenize_from(cs, pos + 1, acc.push(SpecToken::LBracket))
        } else if c == ']' {
            spec_tokenize_from(cs, pos + 1, acc.push(SpecToken::RBracket))
        } else if c == '"' {
            let end = spec_string_end(cs, pos + 1);
            if end >= cs.len() {
                Err(SpecExprError::UnexpectedEof)
            } else {
                proof {
                    lemma_string_end(cs, pos + 1);
                }
                spec_tokenize_from(
                    cs,
                    end + 1,
                    acc.push(SpecToken::StringLit(cs.subrange(pos + 1, end))),
                )
            }
        } else if c == '>' {
            if next_is_eq {
                spec_tokenize_from(cs, pos + 2, acc.push(SpecToken::Op(seq!['>', '='])))
            } else {
                spec_tokenize_from(cs, pos + 1, acc.push(SpecToken::Op(seq!['>'])))
            }
        } else if c == '<' {
            if next_is_eq {
                spec_tokenize_from(cs, pos + 2, acc.push(SpecToken::Op(seq!['<', '='])))
            } else {
                spec_tokenize_from(cs, pos + 1, acc.push(SpecToken::Op(seq!['<'])))
            }
        } else if c == '=' {
            if next_is_eq {
                spec_tokenize_from(cs, pos + 2, acc.push(SpecToken::Op(seq!['=', '='])))
            } else {
                Err(SpecExprError::UnexpectedToken(seq!['=']))
            }
        } else if c == '!' {
            if next_is_eq {
                spec_tokenize_from(cs, pos + 2, acc.push(SpecToken::Op(seq!['!', '='])))
            } else {
                Err(SpecExprError::UnexpectedToken(seq!['!']))
            }
        } else if c == '+' {
            spec_tokenize_from(cs, pos + 1, acc.push(SpecToken::Op(seq!['+'])))
        } else if c == '-' {
            let prev_is_value = acc.len() > 0 && spec_is_value_token(acc.last());
            if !prev_is_value && pos + 1 < cs.len() && spec_is_ascii_digit(cs[pos + 1]) {
                let end = spec_number_end(cs, pos + 1);
                proof {
                    lemma_number_end(cs, pos + 1);
                    lemma_digits_end(cs, pos + 2);
                }
                spec_tokenize_from(
                    cs,
                    end,
                    acc.push(
                        SpecToken::Number(
                            SpecNumberLit { negative: true, text: cs.subrange(pos + 1, end) },
                        ),
                    ),
                )
            } else {
                spec_tokenize_from(cs, pos + 1, acc.push(SpecToken::Op(seq!['-'])))
            }
        } else if c == '*' {
            spec_tokenize_from(cs, pos + 1, acc.push(SpecToken::Op(seq!['*'])))
        } else if c == '/' {
            spec_tokenize_from(cs, pos + 1, acc.push(SpecToken::Op(seq!['/'])))
        } else if spec_is_ascii_digit(c) {
            let end = spec_number_end(cs, pos);
            proof {
                lemma_number_end(cs, pos);
                lemma_digits_end(cs, pos + 1);
            }
            spec_tokenize_from(
                cs,
                end,
                acc.push(
                    SpecToken::Number(SpecNumberLit { negative: false, text: cs.subrange(pos, end) }),
                ),
            )
        } else if spec_alphabetic(c) || c == '_' {
            let end = spec_ident_end(cs, pos + 1);
            proof {
                lemma_ident_end(cs, pos + 1);
            }
            spec_tokenize_from(cs, end, acc.push(spec_word_token(cs.subrange(pos, end))))
        } else {
            Err(SpecExprError::UnexpectedToken(seq![c]))
        }
    }
}

/// The tokens of an expression, or the error the tokenizer reports.
pub open spec fn spec_tokenize(cs: Seq<char>) -> Result<Seq<SpecToken>, SpecExprError> {
    spec_tokenize_from(cs, 0, Seq::empty())
}

// ---------------------------------------------------------------------------
// Executable scanner
// ---------------------------------------------------------------------------

pub(crate) fn scan_digits(cs: &Vec<char>, p: usize) -> (r: usize)
    requires
        p <= cs@.len(),
    ensures
        r == spec_digits_end(cs@, p as int),
        p <= r <= cs@.len(),
{
    let mut q = p;
    while q < cs.len() && is_ascii_digit(cs[q])
        invariant
            p <= q <= cs@.len(),
            spec_digits_end(cs@, p as int) == spec_digits_end(cs@, q as int),
        decreases cs.len() - q,
    {
        q = q + 1;
    }
    q
}

fn scan_number(cs: &Vec<char>, p: usize) -> (r: usize)
    requires
        p <= cs@.len(),
    ensures
        r == spec_number_end(cs@, p as int),
        p <= r <= cs@.len(),
{
    let e = scan_digits(cs, p);
    if e < cs.len() && cs[e] == '.' {
        scan_digits(cs, e + 1)
    } else {
        e
    }
}

fn scan_string(cs: &Vec<char>, p: usize) -> (r: Option<usize>)
    requires
        p <= cs@.len(),
    ensures
        r is Some <==> spec_string_end(cs@, p as int) < cs@.len(),
        r matches Some(e) ==> e == spec_string_end(cs@, p as int) && p <= e < cs@.len(),
{
    let mut q = p;
    while q < cs.len() && cs[q] != '"'
        invariant
            p <= q <= cs@.len(),
            spec_string_end(cs@, p as int) == spec_string_end(cs@, q as int),
        decreases cs.len() - q,
    {
        if cs[q] == '\\' {
            if q + 1 >= cs.len() {
                assert(spec_string_end(cs@, q + 2) == q + 2);
                return None;
            }
            q = q + 2;
        } else {
            q = q + 1;
        }
    }
    if q < cs.len() {
        Some(q)
    } else {
        None
    }
}

fn scan_ident(cs: &Vec<char>, p: usize) -> (r: usize)
    requires
        p <= cs@.len(),
    ensures
        r == spec_ident_end(cs@, p as int),
        p <= r <= cs@.len(),
{
    let mut q = p;
    while q < cs.len() && (is_alphanumeric(cs[q]) || cs[q] == '_')
        invariant
            p <= q <= cs@.len(),
            spec_ident_end(cs@, p as int) == spec_ident_end(cs@, q as int),
        decreases cs.len() - q,
    {
        q = q + 1;
    }
    q
}

fn word_token(cs: &Vec<char>, start: usize, end: usize) -> (t: Token)
    requires
        start <= end <= cs@.len(),
    ensures
        t@ == spec_word_token(cs@.subrange(start as int, end as int)),
{
    if chars_equal(cs, start, end, &['a', 'n', 'd']) {
        Token::And
    } else if chars_equal(cs, start, end, &['o', 'r']) {
        Token::Or
    } else if chars_equal(cs, start, end, &['n', 'o', 't']) {
        Token::Not
    } else if chars_equal(cs, start, end, &['t', 'r', 'u', 'e']) {
        Token::Bool(true)
    } else if chars_equal(cs, start, end, &['f', 'a', 'l', 's', 'e']) {
        Token::Bool(false)
    } else {
        Token::Ident(substring(cs, start, end))
    }
}

fn is_value_token(t: &Token) -> (b: bool)
    ensures
        b == spec_is_value_token(t@),
{
    match t {
        Token::Number(_) | Token::StringLit(_) | Token::Ident(_) | Token::Bool(_) | Token::RParen
        | Token::RBracket => true,
        _ => false,
    }
}

fn one_char(a: char) -> (s: String)
    ensures
        s@ == seq![a],
{
    let mut v: Vec<char> = Vec::new();
    v.push(a);
    assert(v@ =~= seq![a]);
    collect_chars(v.as_slice())
}

fn two_chars(a: char, b: char) -> (s: String)
    ensures
        s@ == seq![a, b],
{
    let mut v: Vec<char> = Vec::new();
    v.push(a);
    v.push(b);
    assert(v@ =~= seq![a, b]);
    collect_chars(v.as_slice())
}

/// Converts a raw expression string into a flat list of tokens.
pub fn tokenize(input: &str) -> (r: Result<Vec<Token>, ExprError>)
    ensures
        view_token_result(r) == spec_tokenize(input@),
{
    let cs = str_chars(input);
    let mut pos: usize = 0;
    let mut tokens: Vec<Token> = Vec::new();
    assert(view_tokens(tokens@) =~= Seq::<SpecToken>::empty());

    while pos < cs.len()
        invariant
            pos <= cs@.len(),
            cs@ == input@,
            spec_tokenize(input@) == spec_tokenize_from(cs@, pos as int, view_tokens(tokens@)),
        decreases cs.len() - pos,
    {
        let ghost old_tokens = tokens@;
        let c = cs[pos];
        let next_is_eq = pos + 1 < cs.len() && cs[pos + 1] == '=';
        if c == ' ' || c == '\t' || c == '\r' || c == '\n' {
            pos = pos + 1;
        } else if c == '.' {
            tokens.push(Token::Dot);
            pos = pos + 1;
        } else if c == '(' {
            tokens.push(Token::LParen);
            pos = pos + 1;
        } else if c == ')' {
            tokens.push(Token::RParen);
            pos = pos + 1;
        } else if c == '[' {
            tokens.push(Token::LBracket);
            pos = pos + 1;
        } else if c == ']' {
            tokens.push(Token::RBracket);
            pos = pos + 1;
        } else if c == '"' {
            let start = pos + 1;
            let end = match scan_string(&cs, start) {
                Some(e) => e,
                None => {
                    return Err(ExprError::UnexpectedEof);
                },
            };
            tokens.push(Token::StringLit(substring(&cs, start, end)));
            pos = end + 1;
        } else if c == '>' {
            if next_is_eq {
                tokens.push(Token::Op(two_chars('>', '=')));
                pos = pos + 2;
            } else {
                tokens.push(Token::Op(one_char('>')));
                pos = pos + 1;
            }
        } else if c == '<' {
            if next_is_eq {
                tokens.push(Token::Op(two_chars('<', '=')));
                pos = pos + 2;
            } else {
                tokens.push(Token::Op(one_char('<')));
                pos = pos + 1;
            }
        } else if c == '=' {
            if next_is_eq {
                tokens.push(Token::Op(two_chars('=', '=')));
                pos = pos + 2;
            } else {
                return Err(ExprError::UnexpectedToken(one_char('=')));
            }
        } else if c == '!' {
            if next_is_eq {
                tokens.push(Token::Op(two_chars('!', '=')));
                pos = pos + 2;
            } else {
                return Err(ExprError::UnexpectedToken(one_char('!')));
            }
        } else if c == '+' {
            tokens.push(Token::Op(one_char('+')));
            pos = pos + 1;
        } else if c == '-' {
            let prev_is_value = tokens.len() > 0 && is_value_token(&tokens[tokens.len() - 1]);
            if !prev_is_value && pos + 1 < cs.len() && is_ascii_digit(cs[pos + 1]) {
                let end = scan_number(&cs, pos + 1);
                proof {
                    lemma_number_end(cs@, pos + 1);
                    lemma_digits_end(cs@, pos + 2);
                }
                let text = substring(&cs, pos + 1, end);
                tokens.push(Token::Number(NumberLit { negative: true, text }));
                pos = end;
            } else {
                tokens.push(Token::Op(one_char('-')));
                pos = pos + 1;
            }
        } else if c == '*' {
            tokens.push(Token::Op(one_char('*')));
            pos = pos + 1;
        } else if c == '/' {
            tokens.push(Token::Op(one_char('/')));
            pos = pos + 1;
        } else if is_ascii_digit(c) {
            let end = scan_number(&cs, pos);
            proof {
                lemma_number_end(cs@, pos as int);
                lemma_digits_end(cs@, pos + 1);
            }
            let text = substring(&cs, pos, end);
            tokens.push(Token::Number(NumberLit { negative: false, text }));
            pos = end;
        } else if is_alphabetic(c) || c == '_' {
            let end = scan_ident(&cs, pos);
            proof {
                lemma_ident_end(cs@, pos + 1);
            }
            tokens.push(word_token(&cs, pos, end));
            pos = end;
        } else {
            return Err(ExprError::UnexpectedToken(one_char(c)));
        }
        assert(view_tokens(tokens@) =~= view_tokens(old_tokens) || view_tokens(tokens@)
            =~= view_tokens(old_tokens).push(tokens@.last()@));
    }
    Ok(tokens)
}

} // verus!
